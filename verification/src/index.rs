//! Metadata kept per block and per main-chain transaction: the block
//! index records height and cumulative trust; the transaction index
//! records a transaction's position and the spent state of each of
//! its outputs.

use vstd::prelude::*;

use crate::block::Block;
use crate::primitives::{BlockHeight, Id};
use crate::timestamp::BlockTimestamp;

verus! {

/// Per-block metadata, created when a block is accepted and never
/// mutated afterwards.
#[derive(Debug, Clone, Copy, PartialEq, Eq, Structural)]
pub struct BlockIndex {
    pub block_id: Id,
    pub prev_block_id: Id,
    pub timestamp: BlockTimestamp,
    pub chain_trust: u128,
    pub height: BlockHeight,
}

impl BlockIndex {
    pub fn new(block: &Block, chain_trust: u128, height: BlockHeight) -> (r: BlockIndex)
        ensures
            r.block_id == block.spec_id(),
            r.prev_block_id == block.header.prev_block_id,
            r.timestamp == block.header.timestamp,
            r.chain_trust == chain_trust,
            r.height == height,
    {
        BlockIndex {
            block_id: block.get_id(),
            prev_block_id: block.header.prev_block_id,
            timestamp: block.header.timestamp,
            chain_trust,
            height,
        }
    }

    pub fn block_id(&self) -> (r: &Id)
        ensures
            r == self.block_id,
    {
        &self.block_id
    }

    pub fn prev_block_id(&self) -> (r: &Id)
        ensures
            r == self.prev_block_id,
    {
        &self.prev_block_id
    }

    pub fn block_height(&self) -> (r: BlockHeight)
        ensures
            r == self.height,
    {
        self.height
    }

    pub fn chain_trust(&self) -> (r: u128)
        ensures
            r == self.chain_trust,
    {
        self.chain_trust
    }

    pub fn block_timestamp(&self) -> (r: BlockTimestamp)
        ensures
            r == self.timestamp,
    {
        self.timestamp
    }
}

/// Index data of a block or of the genesis, which has no parent and
/// no stored index record.
#[derive(Debug, Clone, Copy, PartialEq, Eq, Structural)]
pub enum GenBlockIndex {
    Genesis(Id, BlockTimestamp),
    Block(BlockIndex),
}

impl GenBlockIndex {
    pub fn block_id(&self) -> (r: Id)
        ensures
            r == (match self {
                GenBlockIndex::Genesis(id, _) => *id,
                GenBlockIndex::Block(bi) => bi.block_id,
            }),
    {
        match self {
            GenBlockIndex::Genesis(id, _) => *id,
            GenBlockIndex::Block(bi) => bi.block_id,
        }
    }

    pub fn block_height(&self) -> (r: BlockHeight)
        ensures
            r == (match self {
                GenBlockIndex::Genesis(_, _) => BlockHeight { val: 0 },
                GenBlockIndex::Block(bi) => bi.height,
            }),
    {
        match self {
            GenBlockIndex::Genesis(_, _) => BlockHeight::zero(),
            GenBlockIndex::Block(bi) => bi.height,
        }
    }

    pub fn chain_trust(&self) -> (r: u128)
        ensures
            r == (match self {
                GenBlockIndex::Genesis(_, _) => 0u128,
                GenBlockIndex::Block(bi) => bi.chain_trust,
            }),
    {
        match self {
            GenBlockIndex::Genesis(_, _) => 0,
            GenBlockIndex::Block(bi) => bi.chain_trust,
        }
    }

    pub fn block_timestamp(&self) -> (r: BlockTimestamp)
        ensures
            r == (match self {
                GenBlockIndex::Genesis(_, t) => *t,
                GenBlockIndex::Block(bi) => bi.timestamp,
            }),
    {
        match self {
            GenBlockIndex::Genesis(_, t) => *t,
            GenBlockIndex::Block(bi) => bi.timestamp,
        }
    }
}

/// Who spent an output on the main chain: an ordinary transaction
/// input or a stake kernel consumed by a block.
#[derive(Debug, Clone, Copy, PartialEq, Eq, Structural)]
pub enum Spender {
    RegularInput(Id),
    StakeKernel(Id),
}

/// Spent state of one output in the main-chain transaction index.
#[derive(Debug, Clone, Copy, PartialEq, Eq, Structural)]
pub enum OutputSpentState {
    Unspent,
    SpentBy(Spender),
}

/// Where a main-chain transaction sits: which block and which slot in
/// its transaction list.
#[derive(Debug, Clone, Copy, PartialEq, Eq, Structural)]
pub struct TxMainChainPosition {
    pub block_id: Id,
    pub tx_num: u32,
}

impl TxMainChainPosition {
    pub fn new(block_id: Id, tx_num: u32) -> (r: TxMainChainPosition)
        ensures
            r.block_id == block_id,
            r.tx_num == tx_num,
    {
        TxMainChainPosition { block_id, tx_num }
    }

    pub fn get_block_id(&self) -> (r: Id)
        ensures
            r == self.block_id,
    {
        self.block_id
    }

    pub fn get_tx_num(&self) -> (r: u32)
        ensures
            r == self.tx_num,
    {
        self.tx_num
    }
}

/// What a spendable index entry points at: a transaction's position
/// or a block whose reward is spendable.
#[derive(Debug, Clone, Copy, PartialEq, Eq, Structural)]
pub enum SpendablePosition {
    Transaction(TxMainChainPosition),
    BlockReward(Id),
}

#[derive(Debug, Clone, Copy, PartialEq, Eq, Structural)]
pub enum SpendError {
    AlreadySpent(Spender),
    AlreadyUnspent,
    OutOfRange(u32, usize),
}

#[derive(Debug, Clone, Copy, PartialEq, Eq, Structural)]
pub enum TxMainChainIndexError {
    InvalidOutputCount,
}

/// Per-transaction record on the main chain: position plus one spent
/// state per output.
#[derive(Debug, Clone, PartialEq, Eq)]
pub struct TxMainChainIndex {
    pub position: SpendablePosition,
    pub spent: Vec<OutputSpentState>,
}

/// The content view of a transaction-index record.
pub ghost struct TxIndexView {
    pub position: SpendablePosition,
    pub spent: Seq<OutputSpentState>,
}

impl View for TxMainChainIndex {
    type V = TxIndexView;

    open spec fn view(&self) -> TxIndexView {
        TxIndexView { position: self.position, spent: self.spent@ }
    }
}

impl TxMainChainIndex {
    /// A fresh record: every output unspent. Zero outputs are
    /// rejected.
    pub fn new(position: SpendablePosition, output_count: u32) -> (r: Result<
        TxMainChainIndex,
        TxMainChainIndexError,
    >)
        ensures
            output_count == 0 ==> r == Result::<TxMainChainIndex, TxMainChainIndexError>::Err(
                TxMainChainIndexError::InvalidOutputCount,
            ),
            output_count > 0 ==> (r matches Ok(ix) && ix.position == position
                && ix.spent@.len() == output_count
                && forall|i: int| 0 <= i < output_count ==> ix.spent@[i] == OutputSpentState::Unspent),
    {
        if output_count == 0 {
            return Err(TxMainChainIndexError::InvalidOutputCount);
        }
        let mut spent: Vec<OutputSpentState> = Vec::new();
        let mut i: u32 = 0;
        while i < output_count
            invariant
                i <= output_count,
                spent@.len() == i,
                forall|j: int| 0 <= j < i ==> spent@[j] == OutputSpentState::Unspent,
            decreases output_count - i,
        {
            spent.push(OutputSpentState::Unspent);
            i = i + 1;
        }
        Ok(TxMainChainIndex { position, spent })
    }

    /// An owned copy with the same content.
    pub fn duplicate(&self) -> (r: TxMainChainIndex)
        ensures
            r@ == self@,
    {
        let mut spent: Vec<OutputSpentState> = Vec::new();
        let n = self.spent.len();
        for i in 0..n
            invariant
                n == self.spent@.len(),
                spent@ =~= self.spent@.take(i as int),
        {
            spent.push(self.spent[i]);
            proof {
                assert(spent@ =~= self.spent@.take(i + 1));
            }
        }
        proof {
            assert(self.spent@.take(n as int) =~= self.spent@);
        }
        TxMainChainIndex { position: self.position, spent }
    }

    pub fn get_position(&self) -> (r: &SpendablePosition)
        ensures
            r == self.position,
    {
        &self.position
    }

    pub fn get_tx_position(&self) -> (r: &SpendablePosition)
        ensures
            r == self.position,
    {
        &self.position
    }

    pub fn output_count(&self) -> (r: usize)
        ensures
            r == self.spent@.len(),
    {
        self.spent.len()
    }

    pub fn get_spent_state(&self, output_index: u32) -> (r: Result<OutputSpentState, SpendError>)
        ensures
            output_index < self.spent@.len() ==> r == Result::<OutputSpentState, SpendError>::Ok(
                self.spent@[output_index as int],
            ),
            output_index >= self.spent@.len() ==> r == Result::<OutputSpentState, SpendError>::Err(
                SpendError::OutOfRange(output_index, self.spent@.len() as usize),
            ),
    {
        if (output_index as usize) < self.spent.len() {
            Ok(self.spent[output_index as usize])
        } else {
            Err(SpendError::OutOfRange(output_index, self.spent.len()))
        }
    }

    /// Mark an output spent; fails when out of range or already
    /// spent.
    pub fn spend(&mut self, output_index: u32, spender: Spender) -> (r: Result<(), SpendError>)
        ensures
            output_index < old(self).spent@.len()
                && old(self).spent@[output_index as int] == OutputSpentState::Unspent ==> (
                r is Ok
                && final(self).spent@ == old(self).spent@.update(
                    output_index as int,
                    OutputSpentState::SpentBy(spender),
                )
                && final(self).position == old(self).position
            ),
            output_index >= old(self).spent@.len() ==> (
                r == Result::<(), SpendError>::Err(SpendError::OutOfRange(output_index, old(self).spent@.len() as usize))
                && *final(self) == *old(self)
            ),
            output_index < old(self).spent@.len() ==> (
                old(self).spent@[output_index as int] matches OutputSpentState::SpentBy(by)
                    ==> r == Result::<(), SpendError>::Err(SpendError::AlreadySpent(by))
                        && *final(self) == *old(self)
            ),
    {
        if (output_index as usize) >= self.spent.len() {
            return Err(SpendError::OutOfRange(output_index, self.spent.len()));
        }
        match self.spent[output_index as usize] {
            OutputSpentState::SpentBy(by) => Err(SpendError::AlreadySpent(by)),
            OutputSpentState::Unspent => {
                self.spent[output_index as usize] = OutputSpentState::SpentBy(spender);
                Ok(())
            },
        }
    }

    /// Mark an output unspent again; fails when out of range or not
    /// spent.
    pub fn unspend(&mut self, output_index: u32) -> (r: Result<(), SpendError>)
        ensures
            output_index < old(self).spent@.len()
                && old(self).spent@[output_index as int] is SpentBy ==> (
                r is Ok
                && final(self).spent@ == old(self).spent@.update(
                    output_index as int,
                    OutputSpentState::Unspent,
                )
                && final(self).position == old(self).position
            ),
            output_index >= old(self).spent@.len() ==> (
                r == Result::<(), SpendError>::Err(SpendError::OutOfRange(output_index, old(self).spent@.len() as usize))
                && *final(self) == *old(self)
            ),
            (output_index < old(self).spent@.len()
                && old(self).spent@[output_index as int] == OutputSpentState::Unspent) ==> (
                r == Result::<(), SpendError>::Err(SpendError::AlreadyUnspent)
                && *final(self) == *old(self)
            ),
    {
        if (output_index as usize) >= self.spent.len() {
            return Err(SpendError::OutOfRange(output_index, self.spent.len()));
        }
        match self.spent[output_index as usize] {
            OutputSpentState::Unspent => Err(SpendError::AlreadyUnspent),
            OutputSpentState::SpentBy(_) => {
                self.spent[output_index as usize] = OutputSpentState::Unspent;
                Ok(())
            },
        }
    }

    /// Whether every output is still unspent.
    pub fn all_outputs_available(&self) -> (r: bool)
        ensures
            r == (forall|i: int| 0 <= i < self.spent@.len()
                ==> #[trigger] self.spent@[i] == OutputSpentState::Unspent),
    {
        let n = self.spent.len();
        let mut i: usize = 0;
        while i < n
            invariant
                i <= n,
                n == self.spent@.len(),
                forall|j: int| 0 <= j < i ==> #[trigger] self.spent@[j] == OutputSpentState::Unspent,
            decreases n - i,
        {
            match self.spent[i] {
                OutputSpentState::SpentBy(_) => {
                    return false;
                },
                OutputSpentState::Unspent => {},
            }
            i = i + 1;
        }
        true
    }
}

/// The index record of transaction number `tx_num` of a block.
pub fn calculate_tx_index_from_block(block: &Block, tx_num: usize) -> (r: Result<
    TxMainChainIndex,
    TxMainChainIndexError,
>)
    requires
        tx_num < block.transactions@.len(),
        tx_num <= u32::MAX,
    ensures
        block.transactions@[tx_num as int].transaction.outputs@.len() == 0
            ==> r == Result::<TxMainChainIndex, TxMainChainIndexError>::Err(
            TxMainChainIndexError::InvalidOutputCount,
        ),
        0 < block.transactions@[tx_num as int].transaction.outputs@.len() <= u32::MAX ==> (
            r matches Ok(ix)
            && ix.position == SpendablePosition::Transaction(TxMainChainPosition {
                block_id: block.spec_id(),
                tx_num: tx_num as u32,
            })
            && ix.spent@.len() == block.transactions@[tx_num as int].transaction.outputs@.len()
            && forall|i: int| 0 <= i < ix.spent@.len() ==> ix.spent@[i] == OutputSpentState::Unspent
        ),
        block.transactions@[tx_num as int].transaction.outputs@.len() > u32::MAX
            ==> r == Result::<TxMainChainIndex, TxMainChainIndexError>::Err(
            TxMainChainIndexError::InvalidOutputCount,
        ),
{
    let n_outputs = block.transactions[tx_num].transaction.outputs.len();
    if n_outputs > u32::MAX as usize {
        return Err(TxMainChainIndexError::InvalidOutputCount);
    }
    let position = SpendablePosition::Transaction(TxMainChainPosition {
        block_id: block.get_id(),
        tx_num: tx_num as u32,
    });
    TxMainChainIndex::new(position, n_outputs as u32)
}

} // verus!
