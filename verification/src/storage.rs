//! The persistent store, modelled as typed tables with an
//! always-consistent logical view. A read-write transaction is a
//! delta over the committed data: every write lands in the delta,
//! reads fall through to the base, committing applies the delta
//! atomically, dropping the transaction aborts it.

use vstd::prelude::*;

use crate::collections::{eff_map, lemma_eff_map_values, UMap};
use crate::primitives::Id;

verus! {

/// A recoverable storage failure.
#[derive(Debug, Clone, Copy, PartialEq, Eq, Structural, PartialOrd, Ord)]
pub enum RecoverableError {
    TransactionFailed,
}

/// Blockchain storage error.
#[derive(Debug, Clone, Copy, PartialEq, Eq, Structural, PartialOrd, Ord)]
pub enum Error {
    Storage(RecoverableError),
}

/// The logical content of the store: every table as a map.
pub ghost struct ChainView {
    pub version: u32,
    pub best: Option<Id>,
    pub tx_index_enabled: Option<bool>,
    pub blocks: Map<u128, crate::block::BlockV>,
    pub block_index: Map<u128, crate::index::BlockIndex>,
    pub by_height: Map<u128, crate::primitives::Id>,
    pub tx_index: Map<u128, crate::index::TxIndexView>,
    pub utxos: Map<u128, crate::utxo::Utxo>,
    pub utxo_undo: Map<u128, crate::utxo::BlockUndoV>,
    pub acc_undo: Map<u128, crate::accounting::AccountingBlockUndoV>,
    pub acc_deltas: Map<u128, crate::accounting::AccountingDeltaV>,
    pub pool_data: Map<u128, crate::output::StakePoolData>,
    pub pool_balances: Map<u128, crate::amount::Amount>,
    pub sealed_pool_data: Map<u128, crate::output::StakePoolData>,
    pub sealed_pool_balances: Map<u128, crate::amount::Amount>,
    pub epoch_data: Map<u128, crate::accounting::EpochData>,
}

/// The committed tables.
#[derive(Debug)]
pub struct ChainData {
    pub version: u32,
    pub best: Option<Id>,
    pub tx_index_enabled: Option<bool>,
    pub blocks: UMap<crate::block::Block>,
    pub block_index: UMap<crate::index::BlockIndex>,
    pub by_height: UMap<crate::primitives::Id>,
    pub tx_index: UMap<crate::index::TxMainChainIndex>,
    pub utxos: UMap<crate::utxo::Utxo>,
    pub utxo_undo: UMap<crate::utxo::BlockUndo>,
    pub acc_undo: UMap<crate::accounting::AccountingBlockUndo>,
    pub acc_deltas: UMap<crate::accounting::PoSAccountingDeltaData>,
    pub pool_data: UMap<crate::output::StakePoolData>,
    pub pool_balances: UMap<crate::amount::Amount>,
    pub sealed_pool_data: UMap<crate::output::StakePoolData>,
    pub sealed_pool_balances: UMap<crate::amount::Amount>,
    pub epoch_data: UMap<crate::accounting::EpochData>,
}

impl ChainData {
    /// Structural well-formedness of every table.
    pub open spec fn wf(self) -> bool {
        &&& self.blocks.wf()
        &&& self.block_index.wf()
        &&& self.by_height.wf()
        &&& self.tx_index.wf()
        &&& self.utxos.wf()
        &&& self.utxo_undo.wf()
        &&& self.acc_undo.wf()
        &&& self.acc_deltas.wf()
        &&& self.pool_data.wf()
        &&& self.pool_balances.wf()
        &&& self.sealed_pool_data.wf()
        &&& self.sealed_pool_balances.wf()
        &&& self.epoch_data.wf()
        &&& (forall|i: int| 0 <= i < self.utxo_undo.seq().len() ==> (#[trigger] self.utxo_undo.seq()[i].1).wf())
        &&& (forall|i: int| 0 <= i < self.acc_undo.seq().len() ==> (#[trigger] self.acc_undo.seq()[i].1).wf())
        &&& (forall|i: int| 0 <= i < self.acc_deltas.seq().len() ==> (#[trigger] self.acc_deltas.seq()[i].1).wf())
    }

    /// The logical content.
    pub open spec fn view(self) -> ChainView {
        ChainView {
            version: self.version,
            best: self.best,
            tx_index_enabled: self.tx_index_enabled,
            blocks: self.blocks@.map_values(|v: crate::block::Block| v@),
            block_index: self.block_index@,
            by_height: self.by_height@,
            tx_index: self.tx_index@.map_values(|v: crate::index::TxMainChainIndex| v@),
            utxos: self.utxos@,
            utxo_undo: self.utxo_undo@.map_values(|v: crate::utxo::BlockUndo| v@),
            acc_undo: self.acc_undo@.map_values(|v: crate::accounting::AccountingBlockUndo| v@),
            acc_deltas: self.acc_deltas@.map_values(|v: crate::accounting::PoSAccountingDeltaData| v@),
            pool_data: self.pool_data@,
            pool_balances: self.pool_balances@,
            sealed_pool_data: self.sealed_pool_data@,
            sealed_pool_balances: self.sealed_pool_balances@,
            epoch_data: self.epoch_data@,
        }
    }

    pub fn new_empty_data() -> (r: ChainData)
        ensures
            r.wf(),
            r@.version == 0,
            r@.best is None,
            r@.tx_index_enabled is None,
            r@.blocks =~= Map::<u128, crate::block::BlockV>::empty(),
            r@.block_index =~= Map::<u128, crate::index::BlockIndex>::empty(),
            r@.by_height =~= Map::<u128, crate::primitives::Id>::empty(),
            r@.tx_index =~= Map::<u128, crate::index::TxIndexView>::empty(),
            r@.utxos =~= Map::<u128, crate::utxo::Utxo>::empty(),
            r@.utxo_undo =~= Map::<u128, crate::utxo::BlockUndoV>::empty(),
            r@.acc_undo =~= Map::<u128, crate::accounting::AccountingBlockUndoV>::empty(),
            r@.acc_deltas =~= Map::<u128, crate::accounting::AccountingDeltaV>::empty(),
            r@.pool_data =~= Map::<u128, crate::output::StakePoolData>::empty(),
            r@.pool_balances =~= Map::<u128, crate::amount::Amount>::empty(),
            r@.sealed_pool_data =~= Map::<u128, crate::output::StakePoolData>::empty(),
            r@.sealed_pool_balances =~= Map::<u128, crate::amount::Amount>::empty(),
            r@.epoch_data =~= Map::<u128, crate::accounting::EpochData>::empty(),
    {
        let r = ChainData {
            version: 0,
            best: None,
            tx_index_enabled: None,
            blocks: UMap::new(),
            block_index: UMap::new(),
            by_height: UMap::new(),
            tx_index: UMap::new(),
            utxos: UMap::new(),
            utxo_undo: UMap::new(),
            acc_undo: UMap::new(),
            acc_deltas: UMap::new(),
            pool_data: UMap::new(),
            pool_balances: UMap::new(),
            sealed_pool_data: UMap::new(),
            sealed_pool_balances: UMap::new(),
            epoch_data: UMap::new(),
        };
        r
    }
}

/// The writes of one transaction, keyed like the tables they touch.
#[derive(Debug)]
pub struct StoreDelta {
    pub version: Option<u32>,
    pub best: Option<Option<Id>>,
    pub tx_index_enabled: Option<Option<bool>>,
    pub blocks: UMap<Option<crate::block::Block>>,
    pub block_index: UMap<Option<crate::index::BlockIndex>>,
    pub by_height: UMap<Option<crate::primitives::Id>>,
    pub tx_index: UMap<Option<crate::index::TxMainChainIndex>>,
    pub utxos: UMap<Option<crate::utxo::Utxo>>,
    pub utxo_undo: UMap<Option<crate::utxo::BlockUndo>>,
    pub acc_undo: UMap<Option<crate::accounting::AccountingBlockUndo>>,
    pub acc_deltas: UMap<Option<crate::accounting::PoSAccountingDeltaData>>,
    pub pool_data: UMap<Option<crate::output::StakePoolData>>,
    pub pool_balances: UMap<Option<crate::amount::Amount>>,
    pub sealed_pool_data: UMap<Option<crate::output::StakePoolData>>,
    pub sealed_pool_balances: UMap<Option<crate::amount::Amount>>,
    pub epoch_data: UMap<Option<crate::accounting::EpochData>>,
}

impl StoreDelta {
    pub open spec fn wf(self) -> bool {
        &&& self.blocks.wf()
        &&& self.block_index.wf()
        &&& self.by_height.wf()
        &&& self.tx_index.wf()
        &&& self.utxos.wf()
        &&& self.utxo_undo.wf()
        &&& self.acc_undo.wf()
        &&& self.acc_deltas.wf()
        &&& self.pool_data.wf()
        &&& self.pool_balances.wf()
        &&& self.sealed_pool_data.wf()
        &&& self.sealed_pool_balances.wf()
        &&& self.epoch_data.wf()
        &&& (forall|i: int| 0 <= i < self.utxo_undo.seq().len() ==> (match (#[trigger] self.utxo_undo.seq()[i].1) { Some(v) => v.wf(), None => true }))
        &&& (forall|i: int| 0 <= i < self.acc_undo.seq().len() ==> (match (#[trigger] self.acc_undo.seq()[i].1) { Some(v) => v.wf(), None => true }))
        &&& (forall|i: int| 0 <= i < self.acc_deltas.seq().len() ==> (match (#[trigger] self.acc_deltas.seq()[i].1) { Some(v) => v.wf(), None => true }))
    }

    pub fn new_delta() -> (r: StoreDelta)
        ensures
            r.wf(),
            r.version is None,
            r.best is None,
            r.tx_index_enabled is None,
            r.blocks@ =~= Map::<u128, Option<crate::block::Block>>::empty(),
            r.block_index@ =~= Map::<u128, Option<crate::index::BlockIndex>>::empty(),
            r.by_height@ =~= Map::<u128, Option<crate::primitives::Id>>::empty(),
            r.tx_index@ =~= Map::<u128, Option<crate::index::TxMainChainIndex>>::empty(),
            r.utxos@ =~= Map::<u128, Option<crate::utxo::Utxo>>::empty(),
            r.utxo_undo@ =~= Map::<u128, Option<crate::utxo::BlockUndo>>::empty(),
            r.acc_undo@ =~= Map::<u128, Option<crate::accounting::AccountingBlockUndo>>::empty(),
            r.acc_deltas@ =~= Map::<u128, Option<crate::accounting::PoSAccountingDeltaData>>::empty(),
            r.pool_data@ =~= Map::<u128, Option<crate::output::StakePoolData>>::empty(),
            r.pool_balances@ =~= Map::<u128, Option<crate::amount::Amount>>::empty(),
            r.sealed_pool_data@ =~= Map::<u128, Option<crate::output::StakePoolData>>::empty(),
            r.sealed_pool_balances@ =~= Map::<u128, Option<crate::amount::Amount>>::empty(),
            r.epoch_data@ =~= Map::<u128, Option<crate::accounting::EpochData>>::empty(),
    {
        StoreDelta {
            version: None,
            best: None,
            tx_index_enabled: None,
            blocks: UMap::new(),
            block_index: UMap::new(),
            by_height: UMap::new(),
            tx_index: UMap::new(),
            utxos: UMap::new(),
            utxo_undo: UMap::new(),
            acc_undo: UMap::new(),
            acc_deltas: UMap::new(),
            pool_data: UMap::new(),
            pool_balances: UMap::new(),
            sealed_pool_data: UMap::new(),
            sealed_pool_balances: UMap::new(),
            epoch_data: UMap::new(),
        }
    }

    /// The logical content after this delta lands on `base`.
    pub open spec fn applied(self, base: ChainView) -> ChainView {
        ChainView {
            version: match self.version { Some(v) => v, None => base.version },
            best: match self.best { Some(b) => b, None => base.best },
            tx_index_enabled: match self.tx_index_enabled { Some(b) => b, None => base.tx_index_enabled },
            blocks: eff_map(base.blocks, self.blocks@.map_values(|o: Option<crate::block::Block>| match o { Some(v) => Some(v@), None => None::<crate::block::BlockV> })),
            block_index: eff_map(base.block_index, self.block_index@),
            by_height: eff_map(base.by_height, self.by_height@),
            tx_index: eff_map(base.tx_index, self.tx_index@.map_values(|o: Option<crate::index::TxMainChainIndex>| match o { Some(v) => Some(v@), None => None::<crate::index::TxIndexView> })),
            utxos: eff_map(base.utxos, self.utxos@),
            utxo_undo: eff_map(base.utxo_undo, self.utxo_undo@.map_values(|o: Option<crate::utxo::BlockUndo>| match o { Some(v) => Some(v@), None => None::<crate::utxo::BlockUndoV> })),
            acc_undo: eff_map(base.acc_undo, self.acc_undo@.map_values(|o: Option<crate::accounting::AccountingBlockUndo>| match o { Some(v) => Some(v@), None => None::<crate::accounting::AccountingBlockUndoV> })),
            acc_deltas: eff_map(base.acc_deltas, self.acc_deltas@.map_values(|o: Option<crate::accounting::PoSAccountingDeltaData>| match o { Some(v) => Some(v@), None => None::<crate::accounting::AccountingDeltaV> })),
            pool_data: eff_map(base.pool_data, self.pool_data@),
            pool_balances: eff_map(base.pool_balances, self.pool_balances@),
            sealed_pool_data: eff_map(base.sealed_pool_data, self.sealed_pool_data@),
            sealed_pool_balances: eff_map(base.sealed_pool_balances, self.sealed_pool_balances@),
            epoch_data: eff_map(base.epoch_data, self.epoch_data@),
        }
    }
}

/// Persistent store for blockchain data.
#[derive(Debug)]
pub struct Store {
    pub data: ChainData,
}

impl Store {
    pub open spec fn wf(self) -> bool {
        self.data.wf()
    }

    pub open spec fn view(self) -> ChainView {
        self.data@
    }

    /// New empty storage, already stamped with the current layout
    /// version.
    pub fn new_empty() -> (r: Result<Store, Error>)
        ensures
            r matches Ok(s) && s.wf() && s@.version == 1 && s@.best is None
                && s@.blocks =~= Map::<u128, crate::block::BlockV>::empty()
                && s@.by_height =~= Map::<u128, Id>::empty()
                && s@.utxos =~= Map::<u128, crate::utxo::Utxo>::empty()
                && s@.tx_index =~= Map::<u128, crate::index::TxIndexView>::empty()
                && s@.tx_index_enabled is None,
    {
        let mut data = ChainData::new_empty_data();
        data.version = 1;
        Ok(Store { data })
    }

    /// Open a read-only transaction: a delta-less view of the
    /// committed data.
    pub fn transaction_ro(&self) -> (r: StoreTx<'_>)
        requires
            self.wf(),
        ensures
            r.wf(),
            r@ == self@,
            r.base@ == self@,
    {
        let r = StoreTx { base: &self.data, delta: StoreDelta::new_delta() };
        proof {
            lemma_applied_empty(r.delta, self.data@);
        }
        r
    }

    /// Open a read-write transaction; its writes land in a delta
    /// until committed.
    pub fn transaction_rw(&self) -> (r: StoreTx<'_>)
        requires
            self.wf(),
        ensures
            r.wf(),
            r@ == self@,
            r.base@ == self@,
    {
        let r = StoreTx { base: &self.data, delta: StoreDelta::new_delta() };
        proof {
            lemma_applied_empty(r.delta, self.data@);
        }
        r
    }

    /// Commit a consumed transaction's delta atomically. The
    /// in-memory store cannot fail to commit; the result carries the
    /// recoverable-error shape the engine's retry path expects.
    pub fn commit(&mut self, delta: StoreDelta) -> (r: Result<(), Error>)
        requires
            old(self).wf(),
            delta.wf(),
        ensures
            final(self).wf(),
            r is Ok,
            final(self)@ == delta.applied(old(self)@),
    {
        self.apply_delta(delta);
        Ok(())
    }

    /// Commit a consumed transaction's delta atomically.
    pub fn apply_delta(&mut self, delta: StoreDelta)
        requires
            old(self).wf(),
            delta.wf(),
        ensures
            final(self).wf(),
            final(self)@ == delta.applied(old(self)@),
    {
        let ghost d = delta;
        match delta.version {
            Some(v) => { self.data.version = v; },
            None => {},
        }
        match delta.best {
            Some(b) => { self.data.best = b; },
            None => {},
        }
        match delta.tx_index_enabled {
            Some(b) => { self.data.tx_index_enabled = b; },
            None => {},
        }
        let ghost pre_blocks = self.data.blocks@;
        self.data.blocks.apply_delta(delta.blocks);
        let ghost pre_block_index = self.data.block_index@;
        self.data.block_index.apply_delta(delta.block_index);
        let ghost pre_by_height = self.data.by_height@;
        self.data.by_height.apply_delta(delta.by_height);
        let ghost pre_tx_index = self.data.tx_index@;
        self.data.tx_index.apply_delta(delta.tx_index);
        let ghost pre_utxos = self.data.utxos@;
        self.data.utxos.apply_delta(delta.utxos);
        let ghost pre_utxo_undo = self.data.utxo_undo@;
        self.data.utxo_undo.apply_delta(delta.utxo_undo);
        let ghost pre_acc_undo = self.data.acc_undo@;
        self.data.acc_undo.apply_delta(delta.acc_undo);
        let ghost pre_acc_deltas = self.data.acc_deltas@;
        self.data.acc_deltas.apply_delta(delta.acc_deltas);
        let ghost pre_pool_data = self.data.pool_data@;
        self.data.pool_data.apply_delta(delta.pool_data);
        let ghost pre_pool_balances = self.data.pool_balances@;
        self.data.pool_balances.apply_delta(delta.pool_balances);
        let ghost pre_sealed_pool_data = self.data.sealed_pool_data@;
        self.data.sealed_pool_data.apply_delta(delta.sealed_pool_data);
        let ghost pre_sealed_pool_balances = self.data.sealed_pool_balances@;
        self.data.sealed_pool_balances.apply_delta(delta.sealed_pool_balances);
        let ghost pre_epoch_data = self.data.epoch_data@;
        self.data.epoch_data.apply_delta(delta.epoch_data);
        proof {
            lemma_eff_map_values(pre_blocks, d.blocks@, |v: crate::block::Block| v@);
            lemma_eff_map_values(pre_tx_index, d.tx_index@, |v: crate::index::TxMainChainIndex| v@);
            lemma_eff_map_values(pre_utxo_undo, d.utxo_undo@, |v: crate::utxo::BlockUndo| v@);
            lemma_eff_map_values(pre_acc_undo, d.acc_undo@, |v: crate::accounting::AccountingBlockUndo| v@);
            lemma_eff_map_values(pre_acc_deltas, d.acc_deltas@, |v: crate::accounting::PoSAccountingDeltaData| v@);
            assert(final(self)@ == d.applied(old(self)@)) by {
                assert(final(self)@.blocks =~= d.applied(old(self)@).blocks);
                assert(final(self)@.tx_index =~= d.applied(old(self)@).tx_index);
                assert(final(self)@.utxo_undo =~= d.applied(old(self)@).utxo_undo);
                assert(final(self)@.acc_undo =~= d.applied(old(self)@).acc_undo);
                assert(final(self)@.acc_deltas =~= d.applied(old(self)@).acc_deltas);
            };
            assert forall|i: int| 0 <= i < self.data.utxo_undo.seq().len()
                implies (#[trigger] self.data.utxo_undo.seq()[i].1).wf() by {
                self.data.utxo_undo.lemma_view_facts();
                let k = self.data.utxo_undo.seq()[i].0;
                let v = self.data.utxo_undo.seq()[i].1;
                assert(self.data.utxo_undo@.contains_key(k) && self.data.utxo_undo@[k] == v);
                if d.utxo_undo@.contains_key(k) {
                    d.utxo_undo.lemma_view_facts();
                    let j = choose|j: int| 0 <= j < d.utxo_undo.seq().len() && #[trigger] d.utxo_undo.seq()[j].0 == k;
                    assert(d.utxo_undo.seq()[j].1 == d.utxo_undo@[k]);
                } else {
                    old(self).data.utxo_undo.lemma_view_facts();
                    let j = choose|j: int| 0 <= j < old(self).data.utxo_undo.seq().len()
                        && #[trigger] old(self).data.utxo_undo.seq()[j].0 == k;
                    assert(old(self).data.utxo_undo.seq()[j].1 == old(self).data.utxo_undo@[k]);
                }
            }
            assert forall|i: int| 0 <= i < self.data.acc_undo.seq().len()
                implies (#[trigger] self.data.acc_undo.seq()[i].1).wf() by {
                self.data.acc_undo.lemma_view_facts();
                let k = self.data.acc_undo.seq()[i].0;
                let v = self.data.acc_undo.seq()[i].1;
                assert(self.data.acc_undo@.contains_key(k) && self.data.acc_undo@[k] == v);
                if d.acc_undo@.contains_key(k) {
                    d.acc_undo.lemma_view_facts();
                    let j = choose|j: int| 0 <= j < d.acc_undo.seq().len() && #[trigger] d.acc_undo.seq()[j].0 == k;
                    assert(d.acc_undo.seq()[j].1 == d.acc_undo@[k]);
                } else {
                    old(self).data.acc_undo.lemma_view_facts();
                    let j = choose|j: int| 0 <= j < old(self).data.acc_undo.seq().len()
                        && #[trigger] old(self).data.acc_undo.seq()[j].0 == k;
                    assert(old(self).data.acc_undo.seq()[j].1 == old(self).data.acc_undo@[k]);
                }
            }
            assert forall|i: int| 0 <= i < self.data.acc_deltas.seq().len()
                implies (#[trigger] self.data.acc_deltas.seq()[i].1).wf() by {
                self.data.acc_deltas.lemma_view_facts();
                let k = self.data.acc_deltas.seq()[i].0;
                let v = self.data.acc_deltas.seq()[i].1;
                assert(self.data.acc_deltas@.contains_key(k) && self.data.acc_deltas@[k] == v);
                if d.acc_deltas@.contains_key(k) {
                    d.acc_deltas.lemma_view_facts();
                    let j = choose|j: int| 0 <= j < d.acc_deltas.seq().len() && #[trigger] d.acc_deltas.seq()[j].0 == k;
                    assert(d.acc_deltas.seq()[j].1 == d.acc_deltas@[k]);
                } else {
                    old(self).data.acc_deltas.lemma_view_facts();
                    let j = choose|j: int| 0 <= j < old(self).data.acc_deltas.seq().len()
                        && #[trigger] old(self).data.acc_deltas.seq()[j].0 == k;
                    assert(old(self).data.acc_deltas.seq()[j].1 == old(self).data.acc_deltas@[k]);
                }
            }
        }
    }
}

/// A fresh delta changes nothing.
pub proof fn lemma_applied_empty(d: StoreDelta, base: ChainView)
    requires
        d.version is None,
        d.best is None,
        d.tx_index_enabled is None,
        d.blocks@ =~= Map::<u128, Option<crate::block::Block>>::empty(),
        d.block_index@ =~= Map::<u128, Option<crate::index::BlockIndex>>::empty(),
        d.by_height@ =~= Map::<u128, Option<crate::primitives::Id>>::empty(),
        d.tx_index@ =~= Map::<u128, Option<crate::index::TxMainChainIndex>>::empty(),
        d.utxos@ =~= Map::<u128, Option<crate::utxo::Utxo>>::empty(),
        d.utxo_undo@ =~= Map::<u128, Option<crate::utxo::BlockUndo>>::empty(),
        d.acc_undo@ =~= Map::<u128, Option<crate::accounting::AccountingBlockUndo>>::empty(),
        d.acc_deltas@ =~= Map::<u128, Option<crate::accounting::PoSAccountingDeltaData>>::empty(),
        d.pool_data@ =~= Map::<u128, Option<crate::output::StakePoolData>>::empty(),
        d.pool_balances@ =~= Map::<u128, Option<crate::amount::Amount>>::empty(),
        d.sealed_pool_data@ =~= Map::<u128, Option<crate::output::StakePoolData>>::empty(),
        d.sealed_pool_balances@ =~= Map::<u128, Option<crate::amount::Amount>>::empty(),
        d.epoch_data@ =~= Map::<u128, Option<crate::accounting::EpochData>>::empty(),
    ensures
        d.applied(base) == base,
{
    assert(d.applied(base).blocks =~= base.blocks);
    assert(d.applied(base).block_index =~= base.block_index);
    assert(d.applied(base).by_height =~= base.by_height);
    assert(d.applied(base).tx_index =~= base.tx_index);
    assert(d.applied(base).utxos =~= base.utxos);
    assert(d.applied(base).utxo_undo =~= base.utxo_undo);
    assert(d.applied(base).acc_undo =~= base.acc_undo);
    assert(d.applied(base).acc_deltas =~= base.acc_deltas);
    assert(d.applied(base).pool_data =~= base.pool_data);
    assert(d.applied(base).pool_balances =~= base.pool_balances);
    assert(d.applied(base).sealed_pool_data =~= base.sealed_pool_data);
    assert(d.applied(base).sealed_pool_balances =~= base.sealed_pool_balances);
    assert(d.applied(base).epoch_data =~= base.epoch_data);
}

/// A transaction over the store: reads see base plus delta, writes
/// land in the delta.
pub struct StoreTx<'a> {
    pub base: &'a ChainData,
    pub delta: StoreDelta,
}

impl<'a> StoreTx<'a> {
    pub open spec fn wf(self) -> bool {
        self.base.wf() && self.delta.wf()
    }

    /// The content this transaction sees.
    pub open spec fn view(self) -> ChainView {
        self.delta.applied(self.base@)
    }

    /// Give up the transaction's writes for committing; dropping
    /// them instead aborts.
    pub fn consume(self) -> (r: StoreDelta)
        ensures
            r == self.delta,
    {
        self.delta
    }
    pub fn get_block(&self, id: Id) -> (r: Option<&crate::block::Block>)
        requires
            self.wf(),
        ensures
            r is Some <==> self@.blocks.contains_key(id.value as u128),
            r matches Some(v) ==> v@ == self@.blocks[id.value as u128],
    {
        let k: u128 = id.value as u128;
        match self.delta.blocks.get(k) {
            Some(inner) => match inner {
                Some(v) => Some(v),
                None => None,
            },
            None => match self.base.blocks.get(k) {
                Some(v) => Some(v),
                None => None,
            },
        }
    }

    /// Store a block under its own id.
    pub fn add_block(&mut self, block: crate::block::Block)
        requires
            old(self).wf(),
        ensures
            final(self).wf(),
            final(self).base == old(self).base,
            final(self)@ == (ChainView {
                blocks: old(self)@.blocks.insert(block.spec_id().value as u128, block@),
                ..old(self)@
            }),
    {
        let id = block.get_id();
        let k: u128 = id.value as u128;
        self.delta.blocks.insert(k, Some(block));
        proof {
            assert(final(self)@.blocks =~= old(self)@.blocks.insert(block.spec_id().value as u128, block@));
        }
    }

    pub fn del_block(&mut self, id: Id)
        requires
            old(self).wf(),
        ensures
            final(self).wf(),
            final(self).base == old(self).base,
            final(self)@ == (ChainView {
                blocks: old(self)@.blocks.remove(id.value as u128),
                ..old(self)@
            }),
    {
        let k: u128 = id.value as u128;
        self.delta.blocks.insert(k, None);
        proof {
            assert(final(self)@.blocks =~= old(self)@.blocks.remove(id.value as u128));
        }
    }

    pub fn get_block_index(&self, id: Id) -> (r: Option<crate::index::BlockIndex>)
        requires
            self.wf(),
        ensures
            r is Some <==> self@.block_index.contains_key(id.value as u128),
            r matches Some(v) ==> v == self@.block_index[id.value as u128],
    {
        let k: u128 = id.value as u128;
        match self.delta.block_index.get(k) {
            Some(inner) => match inner {
                Some(v) => Some(*v),
                None => None,
            },
            None => match self.base.block_index.get(k) {
                Some(v) => Some(*v),
                None => None,
            },
        }
    }

    /// Store a block's index record under the block's id.
    pub fn set_block_index(&mut self, bi: &crate::index::BlockIndex)
        requires
            old(self).wf(),
        ensures
            final(self).wf(),
            final(self).base == old(self).base,
            final(self)@ == (ChainView {
                block_index: old(self)@.block_index.insert(bi.block_id.value as u128, *bi),
                ..old(self)@
            }),
    {
        let k: u128 = bi.block_id.value as u128;
        self.delta.block_index.insert(k, Some(*bi));
        proof {
            assert(final(self)@.block_index =~= old(self)@.block_index.insert(bi.block_id.value as u128, *bi));
        }
    }

    pub fn get_block_id_by_height(&self, height: &crate::primitives::BlockHeight) -> (r: Option<Id>)
        requires
            self.wf(),
        ensures
            r is Some <==> self@.by_height.contains_key(height.val as u128),
            r matches Some(v) ==> v == self@.by_height[height.val as u128],
    {
        let k: u128 = height.val as u128;
        match self.delta.by_height.get(k) {
            Some(inner) => match inner {
                Some(v) => Some(*v),
                None => None,
            },
            None => match self.base.by_height.get(k) {
                Some(v) => Some(*v),
                None => None,
            },
        }
    }

    pub fn set_block_id_at_height(&mut self, height: &crate::primitives::BlockHeight, block_id: Id)
        requires
            old(self).wf(),
        ensures
            final(self).wf(),
            final(self).base == old(self).base,
            final(self)@ == (ChainView {
                by_height: old(self)@.by_height.insert(height.val as u128, block_id),
                ..old(self)@
            }),
    {
        let k: u128 = height.val as u128;
        self.delta.by_height.insert(k, Some(block_id));
        proof {
            assert(final(self)@.by_height =~= old(self)@.by_height.insert(height.val as u128, block_id));
        }
    }

    pub fn del_block_id_at_height(&mut self, height: &crate::primitives::BlockHeight)
        requires
            old(self).wf(),
        ensures
            final(self).wf(),
            final(self).base == old(self).base,
            final(self)@ == (ChainView {
                by_height: old(self)@.by_height.remove(height.val as u128),
                ..old(self)@
            }),
    {
        let k: u128 = height.val as u128;
        self.delta.by_height.insert(k, None);
        proof {
            assert(final(self)@.by_height =~= old(self)@.by_height.remove(height.val as u128));
        }
    }

    pub fn get_mainchain_tx_index(&self, tx_id: &crate::primitives::OutPointSourceId) -> (r: Option<&crate::index::TxMainChainIndex>)
        requires
            self.wf(),
        ensures
            r is Some <==> self@.tx_index.contains_key(tx_id.spec_key()),
            r matches Some(v) ==> v@ == self@.tx_index[tx_id.spec_key()],
    {
        let k: u128 = tx_id.key();
        match self.delta.tx_index.get(k) {
            Some(inner) => match inner {
                Some(v) => Some(v),
                None => None,
            },
            None => match self.base.tx_index.get(k) {
                Some(v) => Some(v),
                None => None,
            },
        }
    }

    pub fn set_mainchain_tx_index(&mut self, tx_id: &crate::primitives::OutPointSourceId, tx_index: crate::index::TxMainChainIndex)
        requires
            old(self).wf(),
        ensures
            final(self).wf(),
            final(self).base == old(self).base,
            final(self)@ == (ChainView {
                tx_index: old(self)@.tx_index.insert(tx_id.spec_key(), tx_index@),
                ..old(self)@
            }),
    {
        let k: u128 = tx_id.key();
        self.delta.tx_index.insert(k, Some(tx_index));
        proof {
            assert(final(self)@.tx_index =~= old(self)@.tx_index.insert(tx_id.spec_key(), tx_index@));
        }
    }

    pub fn del_mainchain_tx_index(&mut self, tx_id: &crate::primitives::OutPointSourceId)
        requires
            old(self).wf(),
        ensures
            final(self).wf(),
            final(self).base == old(self).base,
            final(self)@ == (ChainView {
                tx_index: old(self)@.tx_index.remove(tx_id.spec_key()),
                ..old(self)@
            }),
    {
        let k: u128 = tx_id.key();
        self.delta.tx_index.insert(k, None);
        proof {
            assert(final(self)@.tx_index =~= old(self)@.tx_index.remove(tx_id.spec_key()));
        }
    }

    pub fn get_utxo(&self, outpoint: &crate::primitives::OutPoint) -> (r: Option<crate::utxo::Utxo>)
        requires
            self.wf(),
        ensures
            r is Some <==> self@.utxos.contains_key(outpoint.spec_key()),
            r matches Some(v) ==> v == self@.utxos[outpoint.spec_key()],
    {
        let k: u128 = outpoint.key();
        match self.delta.utxos.get(k) {
            Some(inner) => match inner {
                Some(v) => Some(*v),
                None => None,
            },
            None => match self.base.utxos.get(k) {
                Some(v) => Some(*v),
                None => None,
            },
        }
    }

    pub fn set_utxo(&mut self, outpoint: &crate::primitives::OutPoint, utxo: crate::utxo::Utxo)
        requires
            old(self).wf(),
        ensures
            final(self).wf(),
            final(self).base == old(self).base,
            final(self)@ == (ChainView {
                utxos: old(self)@.utxos.insert(outpoint.spec_key(), utxo),
                ..old(self)@
            }),
    {
        let k: u128 = outpoint.key();
        self.delta.utxos.insert(k, Some(utxo));
        proof {
            assert(final(self)@.utxos =~= old(self)@.utxos.insert(outpoint.spec_key(), utxo));
        }
    }

    pub fn del_utxo(&mut self, outpoint: &crate::primitives::OutPoint)
        requires
            old(self).wf(),
        ensures
            final(self).wf(),
            final(self).base == old(self).base,
            final(self)@ == (ChainView {
                utxos: old(self)@.utxos.remove(outpoint.spec_key()),
                ..old(self)@
            }),
    {
        let k: u128 = outpoint.key();
        self.delta.utxos.insert(k, None);
        proof {
            assert(final(self)@.utxos =~= old(self)@.utxos.remove(outpoint.spec_key()));
        }
    }

    pub fn get_undo_data(&self, id: Id) -> (r: Option<&crate::utxo::BlockUndo>)
        requires
            self.wf(),
        ensures
            r is Some <==> self@.utxo_undo.contains_key(id.value as u128),
            r matches Some(v) ==> v@ == self@.utxo_undo[id.value as u128],
            r matches Some(v) ==> v.wf(),
    {
        let k: u128 = id.value as u128;
        proof {
            self.delta.utxo_undo.lemma_view_facts();
            self.base.utxo_undo.lemma_view_facts();
        }
        match self.delta.utxo_undo.get(k) {
            Some(inner) => match inner {
                Some(v) => Some(v),
                None => None,
            },
            None => match self.base.utxo_undo.get(k) {
                Some(v) => Some(v),
                None => None,
            },
        }
    }

    pub fn set_undo_data(&mut self, id: Id, undo: crate::utxo::BlockUndo)
        requires
            old(self).wf(),
            undo.wf(),
        ensures
            final(self).wf(),
            final(self).base == old(self).base,
            final(self)@ == (ChainView {
                utxo_undo: old(self)@.utxo_undo.insert(id.value as u128, undo@),
                ..old(self)@
            }),
    {
        let k: u128 = id.value as u128;
        self.delta.utxo_undo.insert(k, Some(undo));
        proof {
            assert(final(self)@.utxo_undo =~= old(self)@.utxo_undo.insert(id.value as u128, undo@));
        }
    }

    pub fn del_undo_data(&mut self, id: Id)
        requires
            old(self).wf(),
        ensures
            final(self).wf(),
            final(self).base == old(self).base,
            final(self)@ == (ChainView {
                utxo_undo: old(self)@.utxo_undo.remove(id.value as u128),
                ..old(self)@
            }),
    {
        let k: u128 = id.value as u128;
        self.delta.utxo_undo.insert(k, None);
        proof {
            assert(final(self)@.utxo_undo =~= old(self)@.utxo_undo.remove(id.value as u128));
        }
    }

    pub fn get_accounting_undo(&self, id: Id) -> (r: Option<&crate::accounting::AccountingBlockUndo>)
        requires
            self.wf(),
        ensures
            r is Some <==> self@.acc_undo.contains_key(id.value as u128),
            r matches Some(v) ==> v@ == self@.acc_undo[id.value as u128],
            r matches Some(v) ==> v.wf(),
    {
        let k: u128 = id.value as u128;
        proof {
            self.delta.acc_undo.lemma_view_facts();
            self.base.acc_undo.lemma_view_facts();
        }
        match self.delta.acc_undo.get(k) {
            Some(inner) => match inner {
                Some(v) => Some(v),
                None => None,
            },
            None => match self.base.acc_undo.get(k) {
                Some(v) => Some(v),
                None => None,
            },
        }
    }

    pub fn set_accounting_undo(&mut self, id: Id, undo: crate::accounting::AccountingBlockUndo)
        requires
            old(self).wf(),
            undo.wf(),
        ensures
            final(self).wf(),
            final(self).base == old(self).base,
            final(self)@ == (ChainView {
                acc_undo: old(self)@.acc_undo.insert(id.value as u128, undo@),
                ..old(self)@
            }),
    {
        let k: u128 = id.value as u128;
        self.delta.acc_undo.insert(k, Some(undo));
        proof {
            assert(final(self)@.acc_undo =~= old(self)@.acc_undo.insert(id.value as u128, undo@));
        }
    }

    pub fn del_accounting_undo(&mut self, id: Id)
        requires
            old(self).wf(),
        ensures
            final(self).wf(),
            final(self).base == old(self).base,
            final(self)@ == (ChainView {
                acc_undo: old(self)@.acc_undo.remove(id.value as u128),
                ..old(self)@
            }),
    {
        let k: u128 = id.value as u128;
        self.delta.acc_undo.insert(k, None);
        proof {
            assert(final(self)@.acc_undo =~= old(self)@.acc_undo.remove(id.value as u128));
        }
    }

    pub fn get_accounting_delta(&self, id: Id) -> (r: Option<&crate::accounting::PoSAccountingDeltaData>)
        requires
            self.wf(),
        ensures
            r is Some <==> self@.acc_deltas.contains_key(id.value as u128),
            r matches Some(v) ==> v@ == self@.acc_deltas[id.value as u128],
            r matches Some(v) ==> v.wf(),
    {
        let k: u128 = id.value as u128;
        proof {
            self.delta.acc_deltas.lemma_view_facts();
            self.base.acc_deltas.lemma_view_facts();
        }
        match self.delta.acc_deltas.get(k) {
            Some(inner) => match inner {
                Some(v) => Some(v),
                None => None,
            },
            None => match self.base.acc_deltas.get(k) {
                Some(v) => Some(v),
                None => None,
            },
        }
    }

    pub fn set_accounting_delta(&mut self, id: Id, delta_data: crate::accounting::PoSAccountingDeltaData)
        requires
            old(self).wf(),
            delta_data.wf(),
        ensures
            final(self).wf(),
            final(self).base == old(self).base,
            final(self)@ == (ChainView {
                acc_deltas: old(self)@.acc_deltas.insert(id.value as u128, delta_data@),
                ..old(self)@
            }),
    {
        let k: u128 = id.value as u128;
        self.delta.acc_deltas.insert(k, Some(delta_data));
        proof {
            assert(final(self)@.acc_deltas =~= old(self)@.acc_deltas.insert(id.value as u128, delta_data@));
        }
    }

    pub fn del_accounting_delta(&mut self, id: Id)
        requires
            old(self).wf(),
        ensures
            final(self).wf(),
            final(self).base == old(self).base,
            final(self)@ == (ChainView {
                acc_deltas: old(self)@.acc_deltas.remove(id.value as u128),
                ..old(self)@
            }),
    {
        let k: u128 = id.value as u128;
        self.delta.acc_deltas.insert(k, None);
        proof {
            assert(final(self)@.acc_deltas =~= old(self)@.acc_deltas.remove(id.value as u128));
        }
    }

    pub fn get_pool_data(&self, id: Id) -> (r: Option<crate::output::StakePoolData>)
        requires
            self.wf(),
        ensures
            r is Some <==> self@.pool_data.contains_key(id.value as u128),
            r matches Some(v) ==> v == self@.pool_data[id.value as u128],
    {
        let k: u128 = id.value as u128;
        match self.delta.pool_data.get(k) {
            Some(inner) => match inner {
                Some(v) => Some(*v),
                None => None,
            },
            None => match self.base.pool_data.get(k) {
                Some(v) => Some(*v),
                None => None,
            },
        }
    }

    pub fn set_pool_data(&mut self, id: Id, data: crate::output::StakePoolData)
        requires
            old(self).wf(),
        ensures
            final(self).wf(),
            final(self).base == old(self).base,
            final(self)@ == (ChainView {
                pool_data: old(self)@.pool_data.insert(id.value as u128, data),
                ..old(self)@
            }),
    {
        let k: u128 = id.value as u128;
        self.delta.pool_data.insert(k, Some(data));
        proof {
            assert(final(self)@.pool_data =~= old(self)@.pool_data.insert(id.value as u128, data));
        }
    }

    pub fn del_pool_data(&mut self, id: Id)
        requires
            old(self).wf(),
        ensures
            final(self).wf(),
            final(self).base == old(self).base,
            final(self)@ == (ChainView {
                pool_data: old(self)@.pool_data.remove(id.value as u128),
                ..old(self)@
            }),
    {
        let k: u128 = id.value as u128;
        self.delta.pool_data.insert(k, None);
        proof {
            assert(final(self)@.pool_data =~= old(self)@.pool_data.remove(id.value as u128));
        }
    }

    pub fn get_pool_balance(&self, id: Id) -> (r: Option<crate::amount::Amount>)
        requires
            self.wf(),
        ensures
            r is Some <==> self@.pool_balances.contains_key(id.value as u128),
            r matches Some(v) ==> v == self@.pool_balances[id.value as u128],
    {
        let k: u128 = id.value as u128;
        match self.delta.pool_balances.get(k) {
            Some(inner) => match inner {
                Some(v) => Some(*v),
                None => None,
            },
            None => match self.base.pool_balances.get(k) {
                Some(v) => Some(*v),
                None => None,
            },
        }
    }

    pub fn set_pool_balance(&mut self, id: Id, balance: crate::amount::Amount)
        requires
            old(self).wf(),
        ensures
            final(self).wf(),
            final(self).base == old(self).base,
            final(self)@ == (ChainView {
                pool_balances: old(self)@.pool_balances.insert(id.value as u128, balance),
                ..old(self)@
            }),
    {
        let k: u128 = id.value as u128;
        self.delta.pool_balances.insert(k, Some(balance));
        proof {
            assert(final(self)@.pool_balances =~= old(self)@.pool_balances.insert(id.value as u128, balance));
        }
    }

    pub fn del_pool_balance(&mut self, id: Id)
        requires
            old(self).wf(),
        ensures
            final(self).wf(),
            final(self).base == old(self).base,
            final(self)@ == (ChainView {
                pool_balances: old(self)@.pool_balances.remove(id.value as u128),
                ..old(self)@
            }),
    {
        let k: u128 = id.value as u128;
        self.delta.pool_balances.insert(k, None);
        proof {
            assert(final(self)@.pool_balances =~= old(self)@.pool_balances.remove(id.value as u128));
        }
    }

    pub fn get_sealed_pool_data(&self, id: Id) -> (r: Option<crate::output::StakePoolData>)
        requires
            self.wf(),
        ensures
            r is Some <==> self@.sealed_pool_data.contains_key(id.value as u128),
            r matches Some(v) ==> v == self@.sealed_pool_data[id.value as u128],
    {
        let k: u128 = id.value as u128;
        match self.delta.sealed_pool_data.get(k) {
            Some(inner) => match inner {
                Some(v) => Some(*v),
                None => None,
            },
            None => match self.base.sealed_pool_data.get(k) {
                Some(v) => Some(*v),
                None => None,
            },
        }
    }

    pub fn set_sealed_pool_data(&mut self, id: Id, data: crate::output::StakePoolData)
        requires
            old(self).wf(),
        ensures
            final(self).wf(),
            final(self).base == old(self).base,
            final(self)@ == (ChainView {
                sealed_pool_data: old(self)@.sealed_pool_data.insert(id.value as u128, data),
                ..old(self)@
            }),
    {
        let k: u128 = id.value as u128;
        self.delta.sealed_pool_data.insert(k, Some(data));
        proof {
            assert(final(self)@.sealed_pool_data =~= old(self)@.sealed_pool_data.insert(id.value as u128, data));
        }
    }

    pub fn get_sealed_pool_balance(&self, id: Id) -> (r: Option<crate::amount::Amount>)
        requires
            self.wf(),
        ensures
            r is Some <==> self@.sealed_pool_balances.contains_key(id.value as u128),
            r matches Some(v) ==> v == self@.sealed_pool_balances[id.value as u128],
    {
        let k: u128 = id.value as u128;
        match self.delta.sealed_pool_balances.get(k) {
            Some(inner) => match inner {
                Some(v) => Some(*v),
                None => None,
            },
            None => match self.base.sealed_pool_balances.get(k) {
                Some(v) => Some(*v),
                None => None,
            },
        }
    }

    pub fn set_sealed_pool_balance(&mut self, id: Id, balance: crate::amount::Amount)
        requires
            old(self).wf(),
        ensures
            final(self).wf(),
            final(self).base == old(self).base,
            final(self)@ == (ChainView {
                sealed_pool_balances: old(self)@.sealed_pool_balances.insert(id.value as u128, balance),
                ..old(self)@
            }),
    {
        let k: u128 = id.value as u128;
        self.delta.sealed_pool_balances.insert(k, Some(balance));
        proof {
            assert(final(self)@.sealed_pool_balances =~= old(self)@.sealed_pool_balances.insert(id.value as u128, balance));
        }
    }

    pub fn get_epoch_data(&self, epoch_index: u64) -> (r: Option<crate::accounting::EpochData>)
        requires
            self.wf(),
        ensures
            r is Some <==> self@.epoch_data.contains_key(epoch_index as u128),
            r matches Some(v) ==> v == self@.epoch_data[epoch_index as u128],
    {
        let k: u128 = epoch_index as u128;
        match self.delta.epoch_data.get(k) {
            Some(inner) => match inner {
                Some(v) => Some(*v),
                None => None,
            },
            None => match self.base.epoch_data.get(k) {
                Some(v) => Some(*v),
                None => None,
            },
        }
    }

    pub fn set_epoch_data(&mut self, epoch_index: u64, data: crate::accounting::EpochData)
        requires
            old(self).wf(),
        ensures
            final(self).wf(),
            final(self).base == old(self).base,
            final(self)@ == (ChainView {
                epoch_data: old(self)@.epoch_data.insert(epoch_index as u128, data),
                ..old(self)@
            }),
    {
        let k: u128 = epoch_index as u128;
        self.delta.epoch_data.insert(k, Some(data));
        proof {
            assert(final(self)@.epoch_data =~= old(self)@.epoch_data.insert(epoch_index as u128, data));
        }
    }

    pub fn get_storage_version(&self) -> (r: u32)
        requires
            self.wf(),
        ensures
            r == self@.version,
    {
        match self.delta.version {
            Some(v) => v,
            None => self.base.version,
        }
    }

    pub fn set_storage_version(&mut self, version: u32)
        requires
            old(self).wf(),
        ensures
            final(self).wf(),
            final(self).base == old(self).base,
            final(self)@ == (ChainView { version, ..old(self)@ }),
    {
        self.delta.version = Some(version);
    }

    pub fn get_best_block_id(&self) -> (r: Option<Id>)
        requires
            self.wf(),
        ensures
            r == self@.best,
    {
        match self.delta.best {
            Some(b) => b,
            None => self.base.best,
        }
    }

    pub fn set_best_block_id(&mut self, id: &Id)
        requires
            old(self).wf(),
        ensures
            final(self).wf(),
            final(self).base == old(self).base,
            final(self)@ == (ChainView { best: Some(*id), ..old(self)@ }),
    {
        self.delta.best = Some(Some(*id));
    }

    pub fn get_is_mainchain_tx_index_enabled(&self) -> (r: Option<bool>)
        requires
            self.wf(),
        ensures
            r == self@.tx_index_enabled,
    {
        match self.delta.tx_index_enabled {
            Some(b) => b,
            None => self.base.tx_index_enabled,
        }
    }

    pub fn set_is_mainchain_tx_index_enabled(&mut self, enabled: bool)
        requires
            old(self).wf(),
        ensures
            final(self).wf(),
            final(self).base == old(self).base,
            final(self)@ == (ChainView { tx_index_enabled: Some(enabled), ..old(self)@ }),
    {
        self.delta.tx_index_enabled = Some(Some(enabled));
    }

    /// The stored transaction a position names, when the block and
    /// the slot exist.
    pub fn get_mainchain_tx_by_position(&self, tx_pos: &crate::index::TxMainChainPosition) -> (r: Option<
        &crate::transaction::SignedTransaction,
    >)
        requires
            self.wf(),
        ensures
            ({
                let bk = tx_pos.block_id.value as u128;
                &&& (r is Some <==> self@.blocks.contains_key(bk)
                    && tx_pos.tx_num < self@.blocks[bk].transactions.len())
                &&& (r matches Some(t)
                    ==> t@ == self@.blocks[bk].transactions[tx_pos.tx_num as int])
            }),
    {
        let block = match self.get_block(tx_pos.block_id) {
            Some(b) => b,
            None => {
                return None;
            },
        };
        if (tx_pos.tx_num as usize) < block.transactions.len() {
            Some(&block.transactions[tx_pos.tx_num as usize])
        } else {
            None
        }
    }
}

} // verus!
