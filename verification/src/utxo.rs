//! Unspent outputs and the undo records that make every ledger
//! mutation exactly reversible.

use vstd::prelude::*;

use crate::collections::UMap;
use crate::output::TxOutput;
use crate::primitives::{BlockHeight, OutPoint, OutPointSourceId};

verus! {

/// One unspent output: its payload, the height it was created at, and
/// whether it came from a block reward.
#[derive(Debug, Clone, Copy, PartialEq, Eq, Structural)]
pub struct Utxo {
    pub output: TxOutput,
    pub height: BlockHeight,
    pub is_block_reward: bool,
}

impl Utxo {
    pub fn new(output: TxOutput, height: BlockHeight, is_block_reward: bool) -> (r: Utxo)
        ensures
            r == (Utxo { output, height, is_block_reward }),
    {
        Utxo { output, height, is_block_reward }
    }

    pub fn output(&self) -> (r: &TxOutput)
        ensures
            r == self.output,
    {
        &self.output
    }

    pub fn take_output(self) -> (r: TxOutput)
        ensures
            r == self.output,
    {
        self.output
    }

    pub fn source_height(&self) -> (r: BlockHeight)
        ensures
            r == self.height,
    {
        self.height
    }

    pub fn is_block_reward(&self) -> (r: bool)
        ensures
            r == self.is_block_reward,
    {
        self.is_block_reward
    }
}

/// What connecting one transaction consumed: the outpoints it spent
/// and the outputs that stood there, in input order. Reversing
/// re-creates exactly these.
#[derive(Debug, Clone)]
pub struct TxUndo {
    pub spent_outpoints: Vec<OutPoint>,
    pub spent: Vec<Utxo>,
}

/// The content view of a transaction's undo record.
pub ghost struct TxUndoV {
    pub spent_outpoints: Seq<OutPoint>,
    pub spent: Seq<Utxo>,
}

impl View for TxUndo {
    type V = TxUndoV;

    open spec fn view(&self) -> TxUndoV {
        TxUndoV { spent_outpoints: self.spent_outpoints@, spent: self.spent@ }
    }
}

impl TxUndo {
    /// An owned copy with the same content.
    pub fn duplicate(&self) -> (r: TxUndo)
        ensures
            r@ == self@,
    {
        let mut outpoints: Vec<OutPoint> = Vec::new();
        let n = self.spent_outpoints.len();
        for i in 0..n
            invariant
                n == self.spent_outpoints@.len(),
                outpoints@ =~= self.spent_outpoints@.take(i as int),
        {
            outpoints.push(self.spent_outpoints[i]);
            proof {
                assert(outpoints@ =~= self.spent_outpoints@.take(i + 1));
            }
        }
        let mut spent: Vec<Utxo> = Vec::new();
        let m = self.spent.len();
        for i in 0..m
            invariant
                m == self.spent@.len(),
                spent@ =~= self.spent@.take(i as int),
        {
            spent.push(self.spent[i]);
            proof {
                assert(spent@ =~= self.spent@.take(i + 1));
            }
        }
        proof {
            assert(self.spent_outpoints@.take(n as int) =~= self.spent_outpoints@);
            assert(self.spent@.take(m as int) =~= self.spent@);
        }
        TxUndo { spent_outpoints: outpoints, spent }
    }

    pub fn new(spent_outpoints: Vec<OutPoint>, spent: Vec<Utxo>) -> (r: TxUndo)
        ensures
            r.spent_outpoints == spent_outpoints,
            r.spent == spent,
    {
        TxUndo { spent_outpoints, spent }
    }

    pub fn inner(&self) -> (r: &Vec<Utxo>)
        ensures
            r == self.spent,
    {
        &self.spent
    }

    /// Whether this record spends an output of the named transaction.
    pub fn spends_output_of(&self, tx_id: crate::primitives::Id) -> (r: bool)
        ensures
            r == exists|j: int| 0 <= j < self.spent_outpoints@.len()
                && #[trigger] self.spent_outpoints@[j].source == OutPointSourceId::Transaction(tx_id),
    {
        let n = self.spent_outpoints.len();
        let mut j: usize = 0;
        while j < n
            invariant
                j <= n,
                n == self.spent_outpoints@.len(),
                forall|i: int| 0 <= i < j
                    ==> #[trigger] self.spent_outpoints@[i].source != OutPointSourceId::Transaction(tx_id),
            decreases n - j,
        {
            match self.spent_outpoints[j].source {
                OutPointSourceId::Transaction(id) => {
                    if id.value == tx_id.value {
                        return true;
                    }
                },
                OutPointSourceId::BlockReward(_) => {},
            }
            j = j + 1;
        }
        false
    }
}

/// What connecting a block's reward consumed.
#[derive(Debug, Clone)]
pub struct BlockRewardUndo {
    pub spent: Vec<Utxo>,
}

impl BlockRewardUndo {
    pub fn new(spent: Vec<Utxo>) -> (r: BlockRewardUndo)
        ensures
            r.spent == spent,
    {
        BlockRewardUndo { spent }
    }

    pub fn inner(&self) -> (r: &Vec<Utxo>)
        ensures
            r == self.spent,
    {
        &self.spent
    }
}

/// The undo data of one block: per-transaction undo records keyed by
/// transaction id, and the reward's undo if its kernel spent outputs.
#[derive(Debug, Clone)]
pub struct BlockUndo {
    pub tx_undos: UMap<TxUndo>,
    pub reward_undo: Option<BlockRewardUndo>,
}

/// The content view of a block's undo record.
pub ghost struct BlockUndoV {
    pub tx_undos: Map<u128, TxUndoV>,
    pub reward_undo: Option<Seq<Utxo>>,
}

impl View for BlockUndo {
    type V = BlockUndoV;

    open spec fn view(&self) -> BlockUndoV {
        BlockUndoV {
            tx_undos: self.tx_undos@.map_values(|u: TxUndo| u@),
            reward_undo: match self.reward_undo {
                Some(ru) => Some(ru.spent@),
                None => None,
            },
        }
    }
}

impl BlockUndo {
    pub open spec fn wf(self) -> bool {
        self.tx_undos.wf()
    }

    /// An owned copy with the same content.
    pub fn duplicate(&self) -> (r: BlockUndo)
        requires
            self.wf(),
        ensures
            r.wf(),
            r@ == self@,
            r.tx_undos.seq().len() == self.tx_undos.seq().len(),
            forall|i: int| 0 <= i < self.tx_undos.seq().len()
                ==> #[trigger] r.tx_undos.seq()[i].0 == self.tx_undos.seq()[i].0,
            forall|i: int| 0 <= i < self.tx_undos.seq().len()
                ==> #[trigger] r.tx_undos.seq()[i].1@ == self.tx_undos.seq()[i].1@,
    {
        let mut entries: Vec<(u128, TxUndo)> = Vec::new();
        let n = self.tx_undos.len();
        let mut i: usize = 0;
        while i < n
            invariant
                i <= n,
                n == self.tx_undos.seq().len(),
                self.wf(),
                entries@.len() == i,
                forall|j: int| 0 <= j < i ==> #[trigger] entries@[j].0 == self.tx_undos.seq()[j].0,
                forall|j: int| 0 <= j < i ==> #[trigger] entries@[j].1@ == self.tx_undos.seq()[j].1@,
            decreases n - i,
        {
            let entry = self.tx_undos.entry_at(i);
            let key = entry.0;
            let val = entry.1.duplicate();
            entries.push((key, val));
            proof {
                assert(entries@[i as int] == (key, val));
                assert(entries@[i as int].0 == self.tx_undos.seq()[i as int].0);
                assert(entries@[i as int].1@ == self.tx_undos.seq()[i as int].1@);
            }
            i = i + 1;
        }
        let tx_undos = crate::collections::UMap { entries };
        let reward_undo = match &self.reward_undo {
            Some(ru) => {
                let mut spent: Vec<Utxo> = Vec::new();
                let m = ru.spent.len();
                for i in 0..m
                    invariant
                        m == ru.spent@.len(),
                        spent@ =~= ru.spent@.take(i as int),
                {
                    spent.push(ru.spent[i]);
                    proof {
                        assert(spent@ =~= ru.spent@.take(i + 1));
                    }
                }
                proof {
                    assert(ru.spent@.take(m as int) =~= ru.spent@);
                }
                Some(BlockRewardUndo { spent })
            },
            None => None,
        };
        let r = BlockUndo { tx_undos, reward_undo };
        proof {
            assert(r.wf());
            crate::collections::lemma_as_map_map_values(
                r.tx_undos.seq(),
                self.tx_undos.seq(),
                |u: TxUndo| u@,
            );
            assert(r@.tx_undos =~= self@.tx_undos);
            assert(r@ == self@);
        }
        r
    }

    pub fn new() -> (r: BlockUndo)
        ensures
            r.wf(),
            r.tx_undos@ == Map::<u128, TxUndo>::empty(),
            r.reward_undo is None,
    {
        BlockUndo { tx_undos: UMap::new(), reward_undo: None }
    }

    /// Record a transaction's undo data.
    pub fn insert_tx_undo(&mut self, tx_id: crate::primitives::Id, undo: TxUndo)
        requires
            old(self).wf(),
        ensures
            final(self).wf(),
            final(self).tx_undos@ == old(self).tx_undos@.insert(tx_id.value as u128, undo),
            final(self).reward_undo == old(self).reward_undo,
    {
        self.tx_undos.insert(tx_id.value as u128, undo);
    }

    /// Remove and return a transaction's undo data.
    pub fn take_tx_undo(&mut self, tx_id: crate::primitives::Id) -> (r: Option<TxUndo>)
        requires
            old(self).wf(),
        ensures
            final(self).wf(),
            final(self).tx_undos@ == old(self).tx_undos@.remove(tx_id.value as u128),
            r is Some <==> old(self).tx_undos@.contains_key(tx_id.value as u128),
            r matches Some(u) ==> u == old(self).tx_undos@[tx_id.value as u128],
            final(self).reward_undo == old(self).reward_undo,
    {
        self.tx_undos.remove(tx_id.value as u128)
    }

    pub fn set_block_reward_undo(&mut self, undo: BlockRewardUndo)
        ensures
            final(self).reward_undo == Some(undo),
            final(self).tx_undos == old(self).tx_undos,
    {
        self.reward_undo = Some(undo);
    }

    pub fn take_block_reward_undo(&mut self) -> (r: Option<BlockRewardUndo>)
        ensures
            r == old(self).reward_undo,
            final(self).reward_undo is None,
            final(self).tx_undos == old(self).tx_undos,
    {
        self.reward_undo.take()
    }

    /// Whether any undo data is left.
    pub fn is_empty(&self) -> (r: bool)
        requires
            self.wf(),
        ensures
            r == (self.tx_undos.seq().len() == 0 && self.reward_undo is None),
    {
        self.tx_undos.len() == 0 && self.reward_undo.is_none()
    }

    /// Whether some still-recorded transaction of this block spends an
    /// output of `tx_id`: then `tx_id` cannot be disconnected yet.
    pub fn has_children_of(&self, tx_id: crate::primitives::Id) -> (r: bool)
        requires
            self.wf(),
        ensures
            r == exists|i: int, j: int|
                0 <= i < self.tx_undos.seq().len()
                && 0 <= j < self.tx_undos.seq()[i].1.spent_outpoints@.len()
                && #[trigger] self.tx_undos.seq()[i].1.spent_outpoints@[j].source
                    == OutPointSourceId::Transaction(tx_id),
    {
        let n = self.tx_undos.len();
        let mut i: usize = 0;
        while i < n
            invariant
                i <= n,
                self.wf(),
                n == self.tx_undos.seq().len(),
                forall|a: int, b: int| 0 <= a < i && 0 <= b < self.tx_undos.seq()[a].1.spent_outpoints@.len()
                    ==> #[trigger] self.tx_undos.seq()[a].1.spent_outpoints@[b].source
                        != OutPointSourceId::Transaction(tx_id),
            decreases n - i,
        {
            let entry = self.tx_undos.entry_at(i);
            if entry.1.spends_output_of(tx_id) {
                return true;
            }
            i = i + 1;
        }
        false
    }
}

} // verus!
