//! The transaction-index cache: tracks, per main-chain source, the
//! position record and the spent bitmap of its outputs while a block
//! is connected or disconnected, and flushes the accumulated
//! operations to storage as one unit.

use vstd::prelude::*;

use crate::block::Block;
use crate::collections::UMap;
use crate::errors::TxIndexError;
use crate::index::{
    calculate_tx_index_from_block, OutputSpentState, SpendablePosition, Spender, TxIndexView,
    TxMainChainIndex,
};
use crate::primitives::{BlockDistance, BlockHeight, Id, OutPoint, OutPointSourceId};
use crate::storage::{ChainView, StoreTx};
use crate::transaction::{Transaction, TxInput};

verus! {

/// One cached operation on a transaction-index entry.
#[derive(Debug, Clone)]
pub enum CachedInputsOperation {
    Write(TxMainChainIndex),
    Read(TxMainChainIndex),
    Erase,
}

/// The content view of a cached operation.
pub ghost enum OpV {
    Write(TxIndexView),
    Read(TxIndexView),
    Erase,
}

impl View for CachedInputsOperation {
    type V = OpV;

    open spec fn view(&self) -> OpV {
        match self {
            CachedInputsOperation::Write(ix) => OpV::Write(ix@),
            CachedInputsOperation::Read(ix) => OpV::Read(ix@),
            CachedInputsOperation::Erase => OpV::Erase,
        }
    }
}

impl CachedInputsOperation {
    pub fn get_tx_index(&self) -> (r: Option<&TxMainChainIndex>)
        ensures
            r is Some <==> !(self@ is Erase),
            r matches Some(ix) ==> (self@ matches OpV::Write(v) && ix@ == v)
                || (self@ matches OpV::Read(v) && ix@ == v),
    {
        match self {
            CachedInputsOperation::Write(ix) => Some(ix),
            CachedInputsOperation::Read(ix) => Some(ix),
            CachedInputsOperation::Erase => None,
        }
    }
}

/// What spending one outpoint does to the cached operations: the
/// entry must be cached and its output unspent; it becomes a write
/// with that output marked spent. A reward source must in addition
/// be mature.
pub open spec fn spec_spend_one(
    m: Map<u128, OpV>,
    view: ChainView,
    outpoint: OutPoint,
    spend_height: BlockHeight,
    maturity: BlockDistance,
    spender: Spender,
) -> Result<Map<u128, OpV>, TxIndexError> {
    let k = outpoint.source.spec_key();
    match outpoint.source {
        OutPointSourceId::BlockReward(block_id) => {
            if !view.block_index.contains_key(block_id.value as u128) {
                Err(TxIndexError::InvariantBrokenSourceBlockIndexNotFound)
            } else {
                let source_height = view.block_index[block_id.value as u128].height;
                if spend_height.val - source_height.val > i64::MAX
                    || source_height.val - spend_height.val > i64::MAX {
                    Err(TxIndexError::BlockHeightArithmeticError)
                } else if spend_height.val - source_height.val < maturity.val {
                    Err(TxIndexError::ImmatureBlockRewardSpend)
                } else {
                    spec_spend_marked(m, k, outpoint.index, spender)
                }
            }
        },
        OutPointSourceId::Transaction(_) => spec_spend_marked(m, k, outpoint.index, spender),
    }
}

pub open spec fn spec_spend_marked(
    m: Map<u128, OpV>,
    k: u128,
    index: u32,
    spender: Spender,
) -> Result<Map<u128, OpV>, TxIndexError> {
    if !m.contains_key(k) {
        Err(TxIndexError::PreviouslyCachedInputNotFound)
    } else {
        match m[k] {
            OpV::Erase => Err(TxIndexError::PreviouslyCachedInputWasErased),
            OpV::Write(ix) => spec_mark_spent(m, k, ix, index, spender),
            OpV::Read(ix) => spec_mark_spent(m, k, ix, index, spender),
        }
    }
}

pub open spec fn spec_mark_spent(
    m: Map<u128, OpV>,
    k: u128,
    ix: TxIndexView,
    index: u32,
    spender: Spender,
) -> Result<Map<u128, OpV>, TxIndexError> {
    if index >= ix.spent.len() {
        Err(TxIndexError::DoubleSpendAttempt(crate::index::SpendError::OutOfRange(index, ix.spent.len() as usize)))
    } else {
        match ix.spent[index as int] {
            OutputSpentState::SpentBy(by) => Err(TxIndexError::DoubleSpendAttempt(
                crate::index::SpendError::AlreadySpent(by),
            )),
            OutputSpentState::Unspent => Ok(m.insert(
                k,
                OpV::Write(TxIndexView {
                    position: ix.position,
                    spent: ix.spent.update(index as int, OutputSpentState::SpentBy(spender)),
                }),
            )),
        }
    }
}

/// Spending a list of inputs, first to last.
pub open spec fn spec_spend_inputs(
    m: Map<u128, OpV>,
    view: ChainView,
    inputs: Seq<TxInput>,
    spend_height: BlockHeight,
    maturity: BlockDistance,
    spender: Spender,
) -> Result<Map<u128, OpV>, TxIndexError>
    decreases inputs.len(),
{
    if inputs.len() == 0 {
        Ok(m)
    } else {
        match spec_spend_one(m, view, inputs[0].outpoint, spend_height, maturity, spender) {
            Err(e) => Err(e),
            Ok(m2) => spec_spend_inputs(m2, view, inputs.drop_first(), spend_height, maturity, spender),
        }
    }
}

/// The cached operations, consumed for flushing.
pub struct ConsumedCachedInputs {
    pub data: UMap<CachedInputsOperation>,
}

/// The per-block transaction-index cache.
pub struct CachedInputs {
    pub inputs: UMap<CachedInputsOperation>,
}

impl CachedInputs {
    pub open spec fn wf(self) -> bool {
        self.inputs.wf()
    }

    /// The cached operations by source key.
    pub open spec fn view(self) -> Map<u128, OpV> {
        self.inputs@.map_values(|op: CachedInputsOperation| op@)
    }

    pub fn new() -> (r: CachedInputs)
        ensures
            r.wf(),
            r@ =~= Map::<u128, OpV>::empty(),
    {
        CachedInputs { inputs: UMap::new() }
    }

    /// Cache a write of the fresh index record of a block's
    /// transaction or of its reward.
    pub fn add_outputs(&mut self, block: &Block, spend_kind: &SpendKind) -> (r: Result<(), TxIndexError>)
        requires
            old(self).wf(),
            spend_kind matches SpendKind::Transaction(tx_num) ==> tx_num < block.transactions@.len()
                && tx_num <= u32::MAX,
        ensures
            final(self).wf(),
            r is Ok ==> final(self)@.dom() == old(self)@.dom().insert(spend_kind.spec_source_id(*block).spec_key())
                && (final(self)@[spend_kind.spec_source_id(*block).spec_key()] is Write),
            r is Err ==> final(self)@ == old(self)@,
    {
        let (tx_index, outpoint_source_id) = match spend_kind {
            SpendKind::Transaction(tx_num) => {
                let tx_index = match calculate_tx_index_from_block(block, *tx_num) {
                    Ok(ix) => ix,
                    Err(_) => {
                        return Err(TxIndexError::InvalidOutputCount);
                    },
                };
                let tx_id = block.transactions[*tx_num].transaction.get_id();
                (tx_index, OutPointSourceId::Transaction(tx_id))
            },
            SpendKind::BlockReward => {
                let reward = block.block_reward_transactable();
                let n_outputs = match reward.outputs {
                    Some(outs) => outs.len(),
                    None => 0,
                };
                if n_outputs == 0 || n_outputs > u32::MAX as usize {
                    return Err(TxIndexError::InvalidOutputCount);
                }
                let block_id = block.get_id();
                let tx_index = match TxMainChainIndex::new(
                    SpendablePosition::BlockReward(block_id),
                    n_outputs as u32,
                ) {
                    Ok(ix) => ix,
                    Err(_) => {
                        return Err(TxIndexError::InvalidOutputCount);
                    },
                };
                (tx_index, OutPointSourceId::BlockReward(block_id))
            },
        };
        let k = outpoint_source_id.key();
        if self.inputs.contains_key(k) {
            return Err(TxIndexError::OutputAlreadyPresentInInputsCache);
        }
        self.inputs.insert(k, CachedInputsOperation::Write(tx_index));
        proof {
            assert(self@.dom()
                =~= old(self)@.dom().insert(spend_kind.spec_source_id(*block).spec_key()));
        }
        Ok(())
    }

    /// Cache the deletion of a transaction's index record.
    pub fn remove_outputs(&mut self, tx: &Transaction) -> (r: Result<(), TxIndexError>)
        requires
            old(self).wf(),
        ensures
            final(self).wf(),
            r is Ok,
            final(self)@ == old(self)@.insert(
                OutPointSourceId::Transaction(tx.spec_id()).spec_key(),
                OpV::Erase,
            ),
    {
        let tx_id = tx.get_id();
        self.inputs.insert(
            OutPointSourceId::Transaction(tx_id).key(),
            CachedInputsOperation::Erase,
        );
        proof {
            assert(self@ =~= old(self)@.insert(
                OutPointSourceId::Transaction(tx.spec_id()).spec_key(),
                OpV::Erase,
            ));
        }
        Ok(())
    }

    pub fn get_from_cached(&self, outpoint: &OutPoint) -> (r: Result<&CachedInputsOperation, TxIndexError>)
        requires
            self.wf(),
        ensures
            r is Ok <==> self@.contains_key(outpoint.source.spec_key()),
            r matches Ok(op) ==> op@ == self@[outpoint.source.spec_key()],
            !self@.contains_key(outpoint.source.spec_key())
                ==> r == Result::<&CachedInputsOperation, TxIndexError>::Err(TxIndexError::PreviouslyCachedInputNotFound),
    {
        match self.inputs.get(outpoint.source.key()) {
            Some(op) => Ok(op),
            None => Err(TxIndexError::PreviouslyCachedInputNotFound),
        }
    }

    /// Load an index record into the cache if it is not there yet;
    /// fails when storage has no record for the source.
    pub fn fetch_and_cache(&mut self, storage: &StoreTx<'_>, outpoint: &OutPoint) -> (r: Result<
        (),
        TxIndexError,
    >)
        requires
            old(self).wf(),
            storage.wf(),
        ensures
            final(self).wf(),
            old(self)@.contains_key(outpoint.source.spec_key()) ==> (
                r is Ok && final(self)@ == old(self)@
            ),
            !old(self)@.contains_key(outpoint.source.spec_key())
                && storage@.tx_index.contains_key(outpoint.source.spec_key()) ==> (
                r is Ok && final(self)@ == old(self)@.insert(
                    outpoint.source.spec_key(),
                    OpV::Read(storage@.tx_index[outpoint.source.spec_key()]),
                )
            ),
            !old(self)@.contains_key(outpoint.source.spec_key())
                && !storage@.tx_index.contains_key(outpoint.source.spec_key()) ==> (
                r == Result::<(), TxIndexError>::Err(TxIndexError::MissingOutputOrSpent)
                && final(self)@ == old(self)@
            ),
    {
        let k = outpoint.source.key();
        if self.inputs.contains_key(k) {
            return Ok(());
        }
        match storage.get_mainchain_tx_index(&outpoint.source) {
            Some(ix) => {
                let copy = ix.duplicate();
                self.inputs.insert(k, CachedInputsOperation::Read(copy));
                proof {
                    assert(self@ =~= old(self)@.insert(
                        outpoint.source.spec_key(),
                        OpV::Read(storage@.tx_index[outpoint.source.spec_key()]),
                    ));
                }
                Ok(())
            },
            None => Err(TxIndexError::MissingOutputOrSpent),
        }
    }

    /// The maturity rule for spending a block reward: the spending
    /// block must stand at least the configured distance above the
    /// reward's block.
    pub fn check_blockreward_maturity(
        &self,
        storage: &StoreTx<'_>,
        spending_block_id: &Id,
        spend_height: &BlockHeight,
        blockreward_maturity: &BlockDistance,
    ) -> (r: Result<(), TxIndexError>)
        requires
            self.wf(),
            storage.wf(),
        ensures
            !storage@.block_index.contains_key(spending_block_id.value as u128)
                ==> r == Result::<(), TxIndexError>::Err(TxIndexError::InvariantBrokenSourceBlockIndexNotFound),
            storage@.block_index.contains_key(spending_block_id.value as u128) ==> {
                let source_height = storage@.block_index[spending_block_id.value as u128].height;
                &&& (spend_height.val - source_height.val > i64::MAX
                        || source_height.val - spend_height.val > i64::MAX)
                    ==> r == Result::<(), TxIndexError>::Err(TxIndexError::BlockHeightArithmeticError)
                &&& (- (i64::MAX as int) <= spend_height.val - source_height.val <= i64::MAX
                        && spend_height.val - source_height.val < maturity_value(*blockreward_maturity))
                    ==> r == Result::<(), TxIndexError>::Err(TxIndexError::ImmatureBlockRewardSpend)
                &&& (- (i64::MAX as int) <= spend_height.val - source_height.val <= i64::MAX
                        && spend_height.val - source_height.val >= maturity_value(*blockreward_maturity))
                    ==> r is Ok
            },
    {
        let source_block_index = match storage.get_block_index(*spending_block_id) {
            Some(bi) => bi,
            None => {
                return Err(TxIndexError::InvariantBrokenSourceBlockIndexNotFound);
            },
        };
        let source_height = source_block_index.block_height();
        let actual_distance = match spend_height.distance_to(source_height) {
            Some(d) => d,
            None => {
                return Err(TxIndexError::BlockHeightArithmeticError);
            },
        };
        if actual_distance.get() < blockreward_maturity.get() {
            return Err(TxIndexError::ImmatureBlockRewardSpend);
        }
        Ok(())
    }

    /// Mark the cached records of these inputs spent, first to last.
    pub fn apply_spend(
        &mut self,
        storage: &StoreTx<'_>,
        inputs: &Vec<TxInput>,
        spend_height: &BlockHeight,
        blockreward_maturity: &BlockDistance,
        spender: Spender,
    ) -> (r: Result<(), TxIndexError>)
        requires
            old(self).wf(),
            storage.wf(),
        ensures
            final(self).wf(),
            spec_spend_inputs(old(self)@, storage@, inputs@, *spend_height, *blockreward_maturity, spender)
                matches Ok(m2) ==> r is Ok && final(self)@ == m2,
            spec_spend_inputs(old(self)@, storage@, inputs@, *spend_height, *blockreward_maturity, spender)
                matches Err(e) ==> r == Result::<(), TxIndexError>::Err(e),
    {
        let n = inputs.len();
        proof {
            assert(inputs@.skip(0) =~= inputs@);
        }
        let mut i: usize = 0;
        while i < n
            invariant
                i <= n,
                n == inputs@.len(),
                self.wf(),
                storage.wf(),
                spec_spend_inputs(old(self)@, storage@, inputs@, *spend_height, *blockreward_maturity, spender)
                    == spec_spend_inputs(self@, storage@, inputs@.skip(i as int), *spend_height, *blockreward_maturity, spender),
            decreases n - i,
        {
            proof {
                assert(inputs@.skip(i as int)[0] == inputs@[i as int]);
                assert(inputs@.skip(i as int).drop_first() =~= inputs@.skip(i + 1));
            }
            let input = &inputs[i];
            let outpoint = &input.outpoint;
            match &outpoint.source {
                OutPointSourceId::BlockReward(block_id) => {
                    match self.check_blockreward_maturity(storage, block_id, spend_height, blockreward_maturity) {
                        Ok(_) => {},
                        Err(e) => {
                            return Err(e);
                        },
                    }
                },
                OutPointSourceId::Transaction(_) => {},
            }
            let k = outpoint.source.key();
            let ghost m_before = self@;
            let op = match self.inputs.remove(k) {
                Some(op) => op,
                None => {
                    return Err(TxIndexError::PreviouslyCachedInputNotFound);
                },
            };
            let mut ix = match op {
                CachedInputsOperation::Write(ix) => ix,
                CachedInputsOperation::Read(ix) => ix,
                CachedInputsOperation::Erase => {
                    return Err(TxIndexError::PreviouslyCachedInputWasErased);
                },
            };
            match ix.spend(outpoint.index, spender) {
                Ok(_) => {},
                Err(e) => {
                    return Err(TxIndexError::DoubleSpendAttempt(e));
                },
            }
            self.inputs.insert(k, CachedInputsOperation::Write(ix));
            proof {
                assert(self@ =~= m_before.insert(k, OpV::Write(ix@)));
                assert(spec_spend_one(m_before, storage@, inputs@[i as int].outpoint,
                    *spend_height, *blockreward_maturity, spender) == Ok::<Map<u128, OpV>, TxIndexError>(self@));
            }
            i = i + 1;
        }
        proof {
            assert(inputs@.skip(n as int) =~= Seq::<TxInput>::empty());
        }
        Ok(())
    }

    /// Flush consumed operations to storage as one unit.
    pub fn flush_to_storage(db_tx: &mut StoreTx<'_>, input_data: ConsumedCachedInputs) -> (r: Result<
        (),
        TxIndexError,
    >)
        requires
            old(db_tx).wf(),
            input_data.data.wf(),
        ensures
            final(db_tx).wf(),
            final(db_tx).base == old(db_tx).base,
            r is Ok,
            final(db_tx)@ == (ChainView {
                tx_index: spec_apply_ops(old(db_tx)@.tx_index, input_data.data.seq()),
                ..old(db_tx)@
            }),
    {
        flush_consumed_ops(db_tx, input_data)
    }

    /// Hand the accumulated operations over for flushing.
    pub fn consume(self) -> (r: Result<ConsumedCachedInputs, TxIndexError>)
        ensures
            r matches Ok(c) && c.data == self.inputs,
    {
        Ok(ConsumedCachedInputs { data: self.inputs })
    }
}

/// The value a maturity distance demands, as an integer.
pub open spec fn maturity_value(d: BlockDistance) -> int {
    d.val as int
}

/// What a block-level spend touches: one of the block's transactions
/// or its reward payout.
#[derive(Debug, Clone, Copy)]
pub enum SpendKind {
    Transaction(usize),
    BlockReward,
}

impl SpendKind {
    /// The source id the touched entity is indexed under.
    pub open spec fn spec_source_id(self, block: Block) -> OutPointSourceId {
        match self {
            SpendKind::Transaction(tx_num) => OutPointSourceId::Transaction(
                crate::transaction::txv_id(block@.transactions[tx_num as int].transaction),
            ),
            SpendKind::BlockReward => OutPointSourceId::BlockReward(block.spec_id()),
        }
    }
}

/// What flushing a sequence of cached operations does to the stored
/// transaction-index table.
pub open spec fn spec_apply_ops(
    t: Map<u128, TxIndexView>,
    ops: Seq<(u128, CachedInputsOperation)>,
) -> Map<u128, TxIndexView>
    decreases ops.len(),
{
    if ops.len() == 0 {
        t
    } else {
        let rest = spec_apply_ops(t, ops.drop_last());
        match ops.last().1@ {
            OpV::Write(ix) => rest.insert(ops.last().0, ix),
            OpV::Read(_) => rest,
            OpV::Erase => rest.remove(ops.last().0),
        }
    }
}

/// The stored table is probed only at its own key: applying
/// operations touches other keys' results identically for bases that
/// agree at a key.
pub proof fn lemma_apply_ops_pointwise(
    t1: Map<u128, TxIndexView>,
    t2: Map<u128, TxIndexView>,
    ops: Seq<(u128, CachedInputsOperation)>,
    k: u128,
)
    requires
        t1.contains_key(k) <==> t2.contains_key(k),
        t1.contains_key(k) ==> t1[k] == t2[k],
    ensures
        spec_apply_ops(t1, ops).contains_key(k) <==> spec_apply_ops(t2, ops).contains_key(k),
        spec_apply_ops(t1, ops).contains_key(k) ==> spec_apply_ops(t1, ops)[k] == spec_apply_ops(t2, ops)[k],
    decreases ops.len(),
{
    if ops.len() > 0 {
        lemma_apply_ops_pointwise(t1, t2, ops.drop_last(), k);
    }
}

/// Applying operations that never name `k` leaves the table at `k`
/// alone.
pub proof fn lemma_apply_ops_untouched(
    t: Map<u128, TxIndexView>,
    ops: Seq<(u128, CachedInputsOperation)>,
    k: u128,
)
    requires
        forall|i: int| 0 <= i < ops.len() ==> #[trigger] ops[i].0 != k,
    ensures
        spec_apply_ops(t, ops).contains_key(k) <==> t.contains_key(k),
        spec_apply_ops(t, ops).contains_key(k) ==> spec_apply_ops(t, ops)[k] == t[k],
    decreases ops.len(),
{
    if ops.len() > 0 {
        assert(forall|i: int| 0 <= i < ops.drop_last().len() ==> #[trigger] ops.drop_last()[i].0 != k);
        lemma_apply_ops_untouched(t, ops.drop_last(), k);
        assert(ops[ops.len() - 1].0 != k);
    }
}

/// Flush consumed operations to storage: writes land, reads vanish,
/// erasures delete.
pub fn flush_consumed_ops(db_tx: &mut StoreTx<'_>, input_data: ConsumedCachedInputs) -> (r: Result<
    (),
    TxIndexError,
>)
    requires
        old(db_tx).wf(),
        input_data.data.wf(),
    ensures
        final(db_tx).wf(),
        final(db_tx).base == old(db_tx).base,
        r is Ok,
        final(db_tx)@ == (ChainView {
            tx_index: spec_apply_ops(old(db_tx)@.tx_index, input_data.data.seq()),
            ..old(db_tx)@
        }),
{
    let ghost ops = input_data.data.seq();
    let mut work = input_data.data;
    loop
        invariant
            db_tx.wf(),
            work.wf(),
            db_tx.base == old(db_tx).base,
            spec_apply_ops(db_tx@.tx_index, work.seq())
                =~= spec_apply_ops(old(db_tx)@.tx_index, ops),
            db_tx@ == (ChainView { tx_index: db_tx@.tx_index, ..old(db_tx)@ }),
        ensures
            db_tx.wf(),
            db_tx.base == old(db_tx).base,
            db_tx@ == (ChainView {
                tx_index: spec_apply_ops(old(db_tx)@.tx_index, ops),
                ..old(db_tx)@
            }),
        decreases work.seq().len(),
    {
        let popped = work.entries.pop();
        match popped {
            None => {
                proof {
                    assert(spec_apply_ops(db_tx@.tx_index, work.seq()) == db_tx@.tx_index) by {
                        assert(work.seq().len() == 0);
                    };
                }
                break;
            },
            Some((k, op)) => {
                let ghost pre_seq = work.seq().push((k, op));
                let ghost t0 = db_tx@.tx_index;
                proof {
                    assert(pre_seq.drop_last() =~= work.seq());
                    assert forall|i: int| 0 <= i < work.seq().len()
                        implies #[trigger] work.seq()[i].0 != k by {
                        assert(pre_seq[i].0 < pre_seq[pre_seq.len() - 1].0);
                    }
                }
                match &op {
                    CachedInputsOperation::Write(ix) => {
                        db_tx.delta.tx_index.insert(k, Some(ix.duplicate()));
                        proof {
                            assert(db_tx@.tx_index =~= t0.insert(k, ix@));
                        }
                    },
                    CachedInputsOperation::Read(_) => {},
                    CachedInputsOperation::Erase => {
                        db_tx.delta.tx_index.insert(k, None);
                        proof {
                            assert(db_tx@.tx_index =~= t0.remove(k));
                        }
                    },
                }
                proof {
                    let t1 = db_tx@.tx_index;
                    assert forall|k2: u128|
                        (#[trigger] spec_apply_ops(t1, work.seq()).contains_key(k2)
                            <==> spec_apply_ops(t0, pre_seq).contains_key(k2)) by {
                        if k2 == k {
                            lemma_apply_ops_untouched(t1, work.seq(), k);
                        } else {
                            lemma_apply_ops_pointwise(t1, t0, work.seq(), k2);
                        }
                    }
                    assert forall|k2: u128| spec_apply_ops(t1, work.seq()).contains_key(k2)
                        implies #[trigger] spec_apply_ops(t1, work.seq())[k2]
                            == spec_apply_ops(t0, pre_seq)[k2] by {
                        if k2 == k {
                            lemma_apply_ops_untouched(t1, work.seq(), k);
                        } else {
                            lemma_apply_ops_pointwise(t1, t0, work.seq(), k2);
                        }
                    }
                    assert(spec_apply_ops(t1, work.seq()) =~= spec_apply_ops(t0, pre_seq));
                    assert(db_tx@ == (ChainView { tx_index: db_tx@.tx_index, ..old(db_tx)@ }));
                }
            },
        }
    }
    Ok(())
}

} // verus!
