//! The chainstate engine: accepts candidate blocks, validates them,
//! keeps the best chain under a first-seen, highest-trust fork
//! choice, reorganises with exact undo, buffers orphans, and seals
//! epoch accounting once it is reorg-safe.

use vstd::prelude::*;

use crate::block::{Block, BlockHeader, ConsensusData};
use crate::config::{ChainConfig, ChainstateConfig};
use crate::errors::{
    BlockError, CheckBlockError, CheckBlockTransactionsError, ChainstateError, InitializationError,
    OrphanCheckError, PropertyQueryError,
};
use crate::index::{BlockIndex, GenBlockIndex};
use crate::orphans::OrphanBlocksPool;
use crate::primitives::{BlockDistance, BlockHeight, Id, TimeSpan};
use crate::storage::{ChainView, Store, StoreTx};
use crate::timestamp::BlockTimestamp;
use crate::tx_verifier::{
    flush_verifier_delta, BlockTransactableRef, BlockTransactableWithIndexRef, Fee, Subsidy,
    TransactionSource, TransactionVerifier,
};

verus! {

/// How many headers one query hands out at most.
pub const HEADER_LIMIT: u64 = 2000;

/// Where a candidate block came from.
#[derive(Debug, Clone, Copy, PartialEq, Eq, Structural)]
pub enum BlockSource {
    Peer,
    Local,
}

/// What the engine announces after a commit.
#[derive(Debug, Clone, Copy, PartialEq, Eq, Structural)]
pub enum ChainstateEvent {
    NewTip(Id, BlockHeight),
}

/// A subscription handle: a name under which delivered events can be
/// told apart when the log is read back.
#[derive(Debug, Clone, Copy, PartialEq, Eq, Structural)]
pub struct ChainstateEventHandler {
    pub name: u64,
}

/// Holds the subscribed handlers and delivers each broadcast event to
/// all of them synchronously: the per-handler logs grow in lockstep,
/// so waiting for all events is immediate.
pub struct EventsController {
    pub events: Vec<ChainstateEvent>,
    pub handlers: Vec<ChainstateEventHandler>,
}

impl EventsController {
    pub fn new() -> (r: EventsController)
        ensures
            r.events@.len() == 0,
            r.handlers@.len() == 0,
    {
        EventsController { events: Vec::new(), handlers: Vec::new() }
    }

    pub fn subscribe(&mut self, handler: ChainstateEventHandler)
        ensures
            final(self).handlers@ == old(self).handlers@.push(handler),
            final(self).events == old(self).events,
    {
        self.handlers.push(handler);
    }

    pub fn broadcast(&mut self, event: ChainstateEvent)
        ensures
            final(self).events@ == old(self).events@.push(event),
            final(self).handlers == old(self).handlers,
    {
        self.events.push(event);
    }

    pub fn events(&self) -> (r: &Vec<ChainstateEvent>)
        ensures
            r == self.events,
    {
        &self.events
    }

    pub fn handlers(&self) -> (r: &Vec<ChainstateEventHandler>)
        ensures
            r == self.handlers,
    {
        &self.handlers
    }

    pub fn wait_for_all_events(&self) {
    }
}

/// The height of the best block a view names.
pub open spec fn tip_height(v: ChainView, config: ChainConfig) -> int {
    match v.best {
        Some(best) => if best == config.genesis_id {
            0
        } else if v.block_index.contains_key(best.value as u128) {
            v.block_index[best.value as u128].height.val as int
        } else {
            0
        },
        None => 0,
    }
}

/// The trust of the best block a view names.
pub open spec fn tip_trust(v: ChainView, config: ChainConfig) -> int {
    match v.best {
        Some(best) => if best == config.genesis_id {
            0
        } else if v.block_index.contains_key(best.value as u128) {
            v.block_index[best.value as u128].chain_trust as int
        } else {
            0
        },
        None => 0,
    }
}

/// The standing invariant of the stored chain: a best block exists;
/// the height index runs without gaps from genesis to the tip, each
/// entry linking to the one below; every indexed block's parent is
/// indexed one lower (or is the genesis); main-chain blocks are
/// stored in full; every stored block and index record sits under its
/// own id.
pub open spec fn wf_chain(v: ChainView, config: ChainConfig) -> bool {
    &&& v.best is Some
    &&& (v.best->0 != config.genesis_id ==> {
        &&& v.block_index.contains_key(v.best->0.value as u128)
        &&& tip_height(v, config) >= 1
        &&& v.by_height.contains_key(tip_height(v, config) as u128)
        &&& v.by_height[tip_height(v, config) as u128] == v.best->0
    })
    &&& v.by_height.contains_key(0)
    &&& v.by_height[0] == config.genesis_id
    &&& tip_height(v, config) < u64::MAX
    &&& (forall|hk: u128| #[trigger] v.by_height.contains_key(hk) ==> hk <= tip_height(v, config))
    &&& (forall|hk: u128| 0 <= hk <= tip_height(v, config) ==> #[trigger] v.by_height.contains_key(hk))
    &&& (forall|hk: u128| #[trigger] v.by_height.contains_key(hk) && 1 <= hk ==> {
        let id = v.by_height[hk];
        &&& v.block_index.contains_key(id.value as u128)
        &&& v.block_index[id.value as u128].height.val == hk
        &&& v.block_index[id.value as u128].prev_block_id == v.by_height[(hk - 1) as u128]
        &&& v.blocks.contains_key(id.value as u128)
    })
    &&& (forall|k: u128| #[trigger] v.block_index.contains_key(k) ==> {
        let bi = v.block_index[k];
        &&& bi.block_id.value == k
        &&& bi.height.val >= 1
        &&& bi.height.val < u64::MAX
        &&& (bi.prev_block_id == config.genesis_id ==> bi.height.val == 1)
        &&& (bi.prev_block_id != config.genesis_id ==> (
            v.block_index.contains_key(bi.prev_block_id.value as u128)
            && v.block_index[bi.prev_block_id.value as u128].height.val == bi.height.val - 1
        ))
    })
    &&& !v.block_index.contains_key(config.genesis_id.value as u128)
    &&& (forall|k: u128| #[trigger] v.block_index.contains_key(k) ==> v.blocks.contains_key(k))
    &&& (forall|k: u128| #[trigger] v.blocks.contains_key(k)
        ==> crate::block::header_id(v.blocks[k].header).value == k)
}

/// The chain acceptance and state-transition engine: owns the store,
/// the orphan pool and the event log, and drives the block pipeline.
pub struct Chainstate {
    pub chain_config: ChainConfig,
    pub chainstate_config: ChainstateConfig,
    pub chainstate_storage: Store,
    pub orphan_blocks: OrphanBlocksPool,
    pub events_controller: EventsController,
    pub current_time: TimeSpan,
    pub is_initial_block_download_finished: bool,
}

impl Chainstate {
    /// The engine's standing invariant.
    pub open spec fn wf(self) -> bool {
        &&& self.chain_config.wf()
        &&& self.chainstate_storage.wf()
        &&& wf_chain(self.chainstate_storage@, self.chain_config)
        &&& self.orphan_blocks.wf()
        &&& self.orphan_blocks.max_orphans >= 1
        &&& self.chainstate_config.max_orphan_blocks >= 1
    }

    pub fn chain_config(&self) -> (r: &ChainConfig)
        ensures
            r == self.chain_config,
    {
        &self.chain_config
    }

    pub fn chainstate_config(&self) -> (r: &ChainstateConfig)
        ensures
            r == self.chainstate_config,
    {
        &self.chainstate_config
    }

    pub fn orphan_blocks_pool(&self) -> (r: &OrphanBlocksPool)
        ensures
            r == self.orphan_blocks,
    {
        &self.orphan_blocks
    }

    pub fn events_controller(&self) -> (r: &EventsController)
        ensures
            r == self.events_controller,
    {
        &self.events_controller
    }

    pub fn subscribe_to_events(&mut self, handler: ChainstateEventHandler)
        ensures
            final(self).events_controller.handlers@ == old(self).events_controller.handlers@.push(handler),
            final(self).events_controller.events == old(self).events_controller.events,
            final(self).chainstate_storage == old(self).chainstate_storage,
            final(self).chain_config == old(self).chain_config,
            final(self).chainstate_config == old(self).chainstate_config,
            final(self).orphan_blocks == old(self).orphan_blocks,
    {
        self.events_controller.subscribe(handler);
    }

    pub fn wait_for_all_events(&self) {
        self.events_controller.wait_for_all_events();
    }

    /// Advance the injected clock.
    pub fn set_current_time(&mut self, now: TimeSpan)
        ensures
            final(self).current_time == now,
            final(self).chainstate_storage == old(self).chainstate_storage,
            final(self).chain_config == old(self).chain_config,
            final(self).chainstate_config == old(self).chainstate_config,
            final(self).orphan_blocks == old(self).orphan_blocks,
            final(self).events_controller == old(self).events_controller,
            final(self).is_initial_block_download_finished == old(self).is_initial_block_download_finished,
    {
        self.current_time = now;
    }

    /// An engine over the given store, without touching the genesis.
    pub fn new_no_genesis(
        chain_config: ChainConfig,
        chainstate_config: ChainstateConfig,
        chainstate_storage: Store,
        current_time: TimeSpan,
    ) -> (r: Chainstate)
        requires
            chainstate_config.max_orphan_blocks >= 1,
        ensures
            r.chain_config == chain_config,
            r.chainstate_config == chainstate_config,
            r.chainstate_storage == chainstate_storage,
            r.orphan_blocks@ =~= Seq::<crate::block::BlockV>::empty(),
            r.orphan_blocks.wf(),
            r.orphan_blocks.max_orphans == chainstate_config.max_orphan_blocks,
            r.current_time == current_time,
    {
        let orphan_blocks = OrphanBlocksPool::new(chainstate_config.max_orphan_blocks);
        Chainstate {
            chain_config,
            chainstate_config,
            chainstate_storage,
            orphan_blocks,
            events_controller: EventsController::new(),
            current_time,
            is_initial_block_download_finished: false,
        }
    }

    /// Initialize storage with the genesis: the height index starts
    /// at it, its premine outputs become spendable, and its index
    /// record is written when index maintenance is on.
    pub fn process_genesis(&mut self) -> (r: Result<(), BlockError>)
        requires
            old(self).chain_config.wf(),
            old(self).chainstate_storage.wf(),
            old(self).orphan_blocks.wf(),
            old(self).orphan_blocks.max_orphans >= 1,
            old(self).chainstate_config.max_orphan_blocks >= 1,
            old(self).chainstate_storage@.block_index =~= Map::<u128, BlockIndex>::empty(),
            old(self).chainstate_storage@.blocks =~= Map::<u128, crate::block::BlockV>::empty(),
            old(self).chainstate_storage@.by_height =~= Map::<u128, Id>::empty(),
        ensures
            r is Ok ==> final(self).wf(),
            r is Ok ==> final(self).chainstate_storage@.best == Some(final(self).chain_config.genesis_id),
            final(self).chain_config == old(self).chain_config,
            final(self).chainstate_config == old(self).chainstate_config,
            final(self).orphan_blocks == old(self).orphan_blocks,
    {
        let genesis_id = self.chain_config.genesis_block_id();
        let mut db_tx = self.chainstate_storage.transaction_rw();
        db_tx.set_best_block_id(&genesis_id);
        db_tx.set_block_id_at_height(&BlockHeight::zero(), genesis_id);

        // the premine: genesis transactions' outputs enter the ledger
        let genesis = self.chain_config.genesis_block();
        let n = genesis.transactions.len();
        let mut t: usize = 0;
        while t < n
            invariant
                t <= n,
                db_tx.wf(),
                n == genesis.transactions@.len(),
                db_tx.base@ == old(self).chainstate_storage@,
                db_tx@.best == Some(old(self).chain_config.genesis_id),
                db_tx@.by_height =~= Map::<u128, Id>::empty().insert(0, old(self).chain_config.genesis_id),
                db_tx@.block_index =~= Map::<u128, BlockIndex>::empty(),
                db_tx@.blocks =~= Map::<u128, crate::block::BlockV>::empty(),
            decreases n - t,
        {
            let stx = &genesis.transactions[t];
            let txid = stx.transaction.get_id();
            let m = stx.transaction.outputs.len();
            if m <= u32::MAX as usize {
                let mut j: usize = 0;
                while j < m
                    invariant
                        j <= m,
                        db_tx.wf(),
                        m == stx.transaction.outputs@.len(),
                        m <= u32::MAX,
                        db_tx.base@ == old(self).chainstate_storage@,
                        db_tx@.best == Some(old(self).chain_config.genesis_id),
                        db_tx@.by_height =~= Map::<u128, Id>::empty().insert(0, old(self).chain_config.genesis_id),
                        db_tx@.block_index =~= Map::<u128, BlockIndex>::empty(),
                        db_tx@.blocks =~= Map::<u128, crate::block::BlockV>::empty(),
                    decreases m - j,
                {
                    let is_burn = match &stx.transaction.outputs[j].purpose {
                        crate::output::OutputPurpose::Burn => true,
                        _ => false,
                    };
                    if !is_burn {
                        let outpoint = crate::primitives::OutPoint {
                            source: crate::primitives::OutPointSourceId::Transaction(txid),
                            index: j as u32,
                        };
                        db_tx.set_utxo(&outpoint, crate::utxo::Utxo {
                            output: stx.transaction.outputs[j],
                            height: BlockHeight::zero(),
                            is_block_reward: false,
                        });
                    }
                    j = j + 1;
                }
            }
            t = t + 1;
        }

        let delta = db_tx.consume();
        self.chainstate_storage.apply_delta(delta);
        proof {
            let v = self.chainstate_storage@;
            let cfg = self.chain_config;
            assert(v.by_height =~= Map::<u128, Id>::empty().insert(0, cfg.genesis_id));
            assert(tip_height(v, cfg) == 0);
            assert(wf_chain(v, cfg));
        }
        Ok(())
    }
}

impl Chainstate {
    /// Construct an engine over a store, creating the genesis state
    /// on first start and checking configuration agreement afterward.
    pub fn new(
        chain_config: ChainConfig,
        chainstate_config: ChainstateConfig,
        chainstate_storage: Store,
        current_time: TimeSpan,
    ) -> (r: Result<Chainstate, ChainstateError>)
        requires
            chain_config.wf(),
            chainstate_storage.wf(),
            chainstate_config.max_orphan_blocks >= 1,
            chainstate_storage@.best is None ==> {
                &&& chainstate_storage@.block_index =~= Map::<u128, BlockIndex>::empty()
                &&& chainstate_storage@.blocks =~= Map::<u128, crate::block::BlockV>::empty()
                &&& chainstate_storage@.by_height =~= Map::<u128, Id>::empty()
            },
            // a store for another chain is admitted and detected; one
            // that does start at this genesis must be a sound chain
            chainstate_storage@.best is Some
                && chainstate_storage@.by_height.contains_key(0)
                && chainstate_storage@.by_height[0] == chain_config.genesis_id
                ==> wf_chain(chainstate_storage@, chain_config),
        ensures
            r matches Ok(c) ==> c.wf() && c.chain_config == chain_config,
            ({
                let v = chainstate_storage@;
                v.best is Some && v.by_height.contains_key(0)
                    && v.by_height[0] != chain_config.genesis_id
                    ==> r == Result::<Chainstate, ChainstateError>::Err(
                        ChainstateError::FailedToInitializeChainstate(
                            InitializationError::GenesisMismatch(
                                chain_config.genesis_id,
                                v.by_height[0],
                            ),
                        ),
                    )
            }),
    {
        let has_best = {
            let ro = chainstate_storage.transaction_ro();
            ro.get_best_block_id().is_some()
        };
        let mut chainstate = Chainstate::new_no_genesis(
            chain_config,
            chainstate_config,
            chainstate_storage,
            current_time,
        );
        if has_best {
            // the stored chain must belong to this configuration
            match chainstate.check_genesis() {
                Ok(_) => {},
                Err(e) => {
                    return Err(ChainstateError::FailedToInitializeChainstate(e));
                },
            }
        }
        match chainstate.process_tx_index_enabled_flag() {
            Ok(_) => {},
            Err(e) => {
                return Err(ChainstateError::ProcessBlockError(e));
            },
        }
        if !has_best {
            match chainstate.process_genesis() {
                Ok(_) => {},
                Err(e) => {
                    return Err(ChainstateError::ProcessBlockError(e));
                },
            }
        }
        proof {
            assert(chainstate.wf());
        }
        Ok(chainstate)
    }

    /// The stored chain must start at this configuration's genesis:
    /// a store built for another chain is a fatal startup mismatch.
    pub fn check_genesis(&self) -> (r: Result<(), InitializationError>)
        requires
            self.chain_config.wf(),
            self.chainstate_storage.wf(),
        ensures
            ({
                let v = self.chainstate_storage@;
                &&& (!v.by_height.contains_key(0) ==> r == Result::<(), InitializationError>::Err(
                    InitializationError::Block1Missing,
                ))
                &&& (v.by_height.contains_key(0) ==> {
                    &&& (v.by_height[0] == self.chain_config.genesis_id ==> r is Ok)
                    &&& (v.by_height[0] != self.chain_config.genesis_id
                        ==> r == Result::<(), InitializationError>::Err(
                            InitializationError::GenesisMismatch(
                                self.chain_config.genesis_id,
                                v.by_height[0],
                            ),
                        ))
                })
            }),
    {
        let dbtx = self.chainstate_storage.transaction_ro();
        let config_genesis_id = self.chain_config.genesis_block_id();
        // the stored chain starts at height zero with its genesis
        match dbtx.get_block_id_by_height(&BlockHeight::zero()) {
            Some(stored) => {
                if stored.value != config_genesis_id.value {
                    return Err(InitializationError::GenesisMismatch(config_genesis_id, stored));
                }
                Ok(())
            },
            None => Err(InitializationError::Block1Missing),
        }
    }

    /// Transaction-index maintenance must agree between store and
    /// configuration; on first start the configured choice is stored.
    pub fn process_tx_index_enabled_flag(&mut self) -> (r: Result<(), BlockError>)
        requires
            old(self).chainstate_storage.wf(),
        ensures
            final(self).chainstate_storage.wf(),
            final(self).chain_config == old(self).chain_config,
            final(self).chainstate_config == old(self).chainstate_config,
            final(self).orphan_blocks == old(self).orphan_blocks,
            final(self).chainstate_storage@ == (ChainView {
                tx_index_enabled: final(self).chainstate_storage@.tx_index_enabled,
                ..old(self).chainstate_storage@
            }),
            r is Ok <==> (match old(self).chainstate_storage@.tx_index_enabled {
                Some(stored) => stored == old(self).chainstate_config.tx_index_enabled,
                None => true,
            }),
    {
        let mut db_tx = self.chainstate_storage.transaction_rw();
        match db_tx.get_is_mainchain_tx_index_enabled() {
            Some(stored) => {
                if stored != self.chainstate_config.tx_index_enabled {
                    proof {
                        assert(self.chainstate_storage@ == (ChainView {
                            tx_index_enabled: self.chainstate_storage@.tx_index_enabled,
                            ..old(self).chainstate_storage@
                        }));
                    }
                    return Err(BlockError::TxIndexConfigError);
                }
            },
            None => {
                db_tx.set_is_mainchain_tx_index_enabled(self.chainstate_config.tx_index_enabled);
            },
        }
        let delta = db_tx.consume();
        self.chainstate_storage.apply_delta(delta);
        Ok(())
    }

    /// Accept a block into the store: its parent must be known, its
    /// index record gains the parent's height plus one and the
    /// parent's trust plus the block's own proof.
    pub fn accept_block(db_tx: &mut StoreTx<'_>, config: &ChainConfig, block: Block) -> (r: Result<
        BlockIndex,
        BlockError,
    >)
        requires
            old(db_tx).wf(),
            config.wf(),
            wf_chain(old(db_tx)@, *config),
            block.wf(),
        ensures
            final(db_tx).wf(),
            final(db_tx).base == old(db_tx).base,
            r matches Ok(bi) ==> {
                &&& final(db_tx)@ == (ChainView {
                    blocks: old(db_tx)@.blocks.insert(bi.block_id.value as u128, block@),
                    block_index: old(db_tx)@.block_index.insert(bi.block_id.value as u128, bi),
                    ..old(db_tx)@
                })
                &&& bi.block_id == block.spec_id()
                &&& bi.prev_block_id == block.header.prev_block_id
                &&& bi.height.val >= 1
                &&& bi.height.val < u64::MAX
                &&& (bi.prev_block_id == config.genesis_id ==> bi.height.val == 1)
                &&& (bi.prev_block_id != config.genesis_id ==> {
                    &&& old(db_tx)@.block_index.contains_key(bi.prev_block_id.value as u128)
                    &&& old(db_tx)@.block_index[bi.prev_block_id.value as u128].height.val == bi.height.val - 1
                })
                &&& wf_chain(final(db_tx)@, *config)
            },
            r is Err ==> final(db_tx)@ == old(db_tx)@,
            ({
                let prev = block.header.prev_block_id;
                let prev_key = prev.value as u128;
                // a fresh block whose parent is known and whose proof
                // and trust are computable is owed acceptance
                (block.spec_id() != config.genesis_id
                    && !old(db_tx)@.block_index.contains_key(block.spec_id().value as u128)
                    && (prev == config.genesis_id || old(db_tx)@.block_index.contains_key(prev_key))
                    && (prev == config.genesis_id || old(db_tx)@.block_index[prev_key].height.val < u64::MAX - 1)
                    && block.header.consensus_data.spec_block_proof() is Some
                    && (if prev == config.genesis_id { 0int } else {
                        old(db_tx)@.block_index[prev_key].chain_trust as int
                    }) + block.header.consensus_data.spec_block_proof()->0 <= u128::MAX)
                    ==> r is Ok
            }),
    {
        let block_id = block.get_id();
        let prev_id = *block.prev_block_id();

        if block_id.value == config.genesis_block_id().value {
            return Err(BlockError::BlockAlreadyExists(block_id));
        }
        if db_tx.get_block_index(block_id).is_some() {
            return Err(BlockError::BlockAlreadyExists(block_id));
        }

        let (prev_height, prev_trust): (u64, u128) = if prev_id.value == config.genesis_block_id().value {
            (0, 0)
        } else {
            match db_tx.get_block_index(prev_id) {
                Some(pbi) => (pbi.block_height().get(), pbi.chain_trust()),
                None => {
                    return Err(BlockError::InvariantErrorPrevBlockNotFound(block_id));
                },
            }
        };
        if prev_height >= u64::MAX - 1 {
            return Err(BlockError::BlockHeightArithmeticError);
        }
        let height = BlockHeight::new(prev_height + 1);
        let proof_value = match block.consensus_data().get_block_proof() {
            Some(p) => p,
            None => {
                return Err(BlockError::BlockProofCalculationError(block_id));
            },
        };
        let chain_trust = match prev_trust.checked_add(proof_value) {
            Some(t) => t,
            None => {
                return Err(BlockError::BlockProofCalculationError(block_id));
            },
        };
        let bi = BlockIndex::new(&block, chain_trust, height);
        db_tx.set_block_index(&bi);
        db_tx.add_block(block);
        proof {
            let v = db_tx@;
            let v0 = old(db_tx)@;
            assert(tip_height(v, *config) == tip_height(v0, *config)) by {
                assert(v.best == v0.best);
                if v0.best->0 != config.genesis_id {
                    assert(v0.block_index.contains_key(v0.best->0.value as u128));
                    assert(v0.block_index[v0.best->0.value as u128].block_id.value
                        == v0.best->0.value);
                    assert(bi.block_id.value != v0.best->0.value);
                }
            };
            assert(wf_chain(v, *config)) by {
                assert forall|hk: u128| #[trigger] v.by_height.contains_key(hk) && 1 <= hk implies {
                    let id = v.by_height[hk];
                    &&& v.block_index.contains_key(id.value as u128)
                    &&& v.block_index[id.value as u128].height.val == hk
                    &&& v.block_index[id.value as u128].prev_block_id == v.by_height[(hk - 1) as u128]
                    &&& v.blocks.contains_key(id.value as u128)
                } by {
                    let id = v.by_height[hk];
                    assert(v0.block_index.contains_key(id.value as u128));
                    assert(v0.block_index[id.value as u128].block_id.value == id.value);
                }
            };
        }
        Ok(bi)
    }
}

/// Extending the height index by the block on top of the old tip
/// keeps the chain well-formed.
#[verifier::rlimit(100)]
#[verifier::spinoff_prover]
pub proof fn lemma_connect_wf(v0: ChainView, v: ChainView, config: ChainConfig, bi: BlockIndex)
    requires
        wf_chain(v0, config),
        tip_height(v0, config) == bi.height.val - 1,
        v0.by_height.contains_key((bi.height.val - 1) as u128),
        v0.by_height[(bi.height.val - 1) as u128] == bi.prev_block_id,
        v0.block_index.contains_key(bi.block_id.value as u128),
        v0.block_index[bi.block_id.value as u128] == bi,
        v0.blocks.contains_key(bi.block_id.value as u128),
        bi.height.val >= 1,
        v.block_index == v0.block_index,
        v.blocks == v0.blocks,
        v.by_height == v0.by_height.insert(bi.height.val as u128, bi.block_id),
        v.best == Some(bi.block_id),
        bi.height.val < u64::MAX,
    ensures
        wf_chain(v, config),
        tip_height(v, config) == bi.height.val,
        tip_trust(v, config) == bi.chain_trust,
{
    assert(bi.block_id != config.genesis_id) by {
        assert(!v0.block_index.contains_key(config.genesis_id.value as u128));
        assert(v0.block_index[bi.block_id.value as u128].block_id.value == bi.block_id.value);
    };
    let tk: u128 = bi.height.val as u128;
    assert(tip_height(v, config) == bi.height.val);
    assert forall|hk: u128| #[trigger] v.by_height.contains_key(hk)
        implies hk <= tip_height(v, config) by {
        if hk != tk {
            assert(v0.by_height.contains_key(hk));
        }
    }
    assert forall|hk: u128| 0 <= hk <= tip_height(v, config)
        implies #[trigger] v.by_height.contains_key(hk) by {
        if hk != tk {
            assert(hk <= tip_height(v0, config));
        }
    }
    assert forall|hk: u128| #[trigger] v.by_height.contains_key(hk) && 1 <= hk implies {
        let id = v.by_height[hk];
        &&& v.block_index.contains_key(id.value as u128)
        &&& v.block_index[id.value as u128].height.val == hk
        &&& v.block_index[id.value as u128].prev_block_id == v.by_height[(hk - 1) as u128]
        &&& v.blocks.contains_key(id.value as u128)
    } by {
        if hk == tk {
            assert(v.by_height[hk] == bi.block_id);
            assert(hk - 1 != tk);
            assert(v.by_height[(hk - 1) as u128] == v0.by_height[(hk - 1) as u128]);
        } else {
            assert(v0.by_height.contains_key(hk));
            assert(v.by_height[hk] == v0.by_height[hk]);
            assert(hk <= tip_height(v0, config));
            assert(hk - 1 != tk);
        }
    }
    assert(wf_chain(v, config));
}

impl Chainstate {
    /// Whether an index record sits on the main chain.
    pub open spec fn spec_in_main_chain(v: ChainView, bi: BlockIndex) -> bool {
        v.by_height.contains_key(bi.height.val as u128)
            && v.by_height[bi.height.val as u128] == bi.block_id
    }

    /// Connect the block of `bi` on top of the current tip: verify
    /// and apply every transaction and the reward, record the undo,
    /// extend the height index, move the best block up.
    #[verifier::rlimit(100)]
    #[verifier::spinoff_prover]
    pub fn connect_block(
        db_tx: &mut StoreTx<'_>,
        config: &ChainConfig,
        tx_index_enabled: bool,
        bi: &BlockIndex,
    ) -> (r: Result<(), BlockError>)
        requires
            old(db_tx).wf(),
            config.wf(),
            wf_chain(old(db_tx)@, *config),
            tip_height(old(db_tx)@, *config) == bi.height.val - 1,
            old(db_tx)@.by_height.contains_key((bi.height.val - 1) as u128),
            old(db_tx)@.by_height[(bi.height.val - 1) as u128] == bi.prev_block_id,
            old(db_tx)@.block_index.contains_key(bi.block_id.value as u128),
            old(db_tx)@.block_index[bi.block_id.value as u128] == *bi,
            old(db_tx)@.blocks.contains_key(bi.block_id.value as u128),
            bi.height.val >= 1,
        ensures
            final(db_tx).wf(),
            final(db_tx).base == old(db_tx).base,
            r is Ok ==> {
                &&& wf_chain(final(db_tx)@, *config)
                &&& final(db_tx)@.best == Some(bi.block_id)
                &&& tip_height(final(db_tx)@, *config) == bi.height.val
                &&& final(db_tx)@.block_index == old(db_tx)@.block_index
                &&& final(db_tx)@.blocks == old(db_tx)@.blocks
                &&& final(db_tx)@.by_height == old(db_tx)@.by_height.insert(
                    bi.height.val as u128,
                    bi.block_id,
                )
                &&& tip_trust(final(db_tx)@, *config) == bi.chain_trust
            },
    {
        let ghost v0 = old(db_tx)@;
        let block = {
            let stored = match db_tx.get_block(bi.block_id) {
                Some(b) => b,
                None => {
                    proof {
                        assert(false);
                    }
                    return Err(BlockError::InvariantErrorPrevBlockNotFound(bi.block_id));
                },
            };
            stored.duplicate()
        };
        proof {
            assert(block.spec_id().value == bi.block_id.value);
            assert(block.spec_id() == bi.block_id);
        }
        let median_time_past = crate::consensus::calculate_median_time_past(
            db_tx,
            &bi.prev_block_id,
            config,
        );
        let mut verifier = TransactionVerifier::new(db_tx, tx_index_enabled);
        let n = block.transactions.len();
        let mut total_fees = Fee(crate::amount::Amount::from_atoms(0));
        let mut t: usize = 0;
        while t < n
            invariant
                t <= n,
                n == block.transactions@.len(),
                verifier.wf(),
                db_tx.wf(),
                db_tx@ == v0,
            decreases n - t,
        {
            let fee_opt = match verifier.connect_transactable(
                config,
                db_tx,
                bi,
                BlockTransactableWithIndexRef::Transaction(&block, t, None),
                &median_time_past,
            ) {
                Ok(f) => f,
                Err(e) => {
                    return Err(BlockError::StateUpdateFailed(e));
                },
            };
            match fee_opt {
                Some(fee) => {
                    match total_fees.0.add(fee.0) {
                        Some(sum) => {
                            total_fees = Fee(sum);
                        },
                        None => {
                            return Err(BlockError::StateUpdateFailed(
                                crate::errors::ConnectTransactionError::FeeAdditionError,
                            ));
                        },
                    }
                },
                None => {},
            }
            t = t + 1;
        }
        // the reward may pay out at most inputs + subsidy + fees
        let subsidy = config.block_subsidy_at_height(&bi.block_height());
        match verifier.check_block_reward(db_tx, &block, total_fees, Subsidy(subsidy)) {
            Ok(_) => {},
            Err(e) => {
                return Err(BlockError::StateUpdateFailed(e));
            },
        }
        match verifier.connect_transactable(
            config,
            db_tx,
            bi,
            BlockTransactableWithIndexRef::BlockReward(&block, None),
            &median_time_past,
        ) {
            Ok(_) => {},
            Err(e) => {
                return Err(BlockError::StateUpdateFailed(e));
            },
        }
        let delta = match verifier.consume() {
            Ok(d) => d,
            Err(e) => {
                return Err(BlockError::StateUpdateFailed(e));
            },
        };
        match flush_verifier_delta(db_tx, delta) {
            Ok(_) => {},
            Err(e) => {
                return Err(BlockError::StateUpdateFailed(e));
            },
        }
        db_tx.set_block_id_at_height(&bi.block_height(), bi.block_id);
        db_tx.set_best_block_id(&bi.block_id);
        proof {
            assert(db_tx@.by_height =~= v0.by_height.insert(bi.height.val as u128, bi.block_id));
            lemma_connect_wf(v0, db_tx@, *config, *bi);
        }
        Ok(())
    }

    /// Disconnect the block at the tip: reverse its transactions in
    /// reverse order of connection, drop its undo and height entry,
    /// move the best block down to its parent.
    #[verifier::rlimit(100)]
    pub fn disconnect_tip(
        db_tx: &mut StoreTx<'_>,
        config: &ChainConfig,
        tx_index_enabled: bool,
    ) -> (r: Result<(), BlockError>)
        requires
            old(db_tx).wf(),
            config.wf(),
            wf_chain(old(db_tx)@, *config),
            tip_height(old(db_tx)@, *config) >= 1,
        ensures
            final(db_tx).wf(),
            final(db_tx).base == old(db_tx).base,
            r is Ok ==> {
                &&& wf_chain(final(db_tx)@, *config)
                &&& tip_height(final(db_tx)@, *config) == tip_height(old(db_tx)@, *config) - 1
                &&& final(db_tx)@.block_index == old(db_tx)@.block_index
                &&& final(db_tx)@.blocks == old(db_tx)@.blocks
                &&& final(db_tx)@.by_height == old(db_tx)@.by_height.remove(
                    tip_height(old(db_tx)@, *config) as u128,
                )
                &&& final(db_tx)@.best == Some(
                    old(db_tx)@.by_height[(tip_height(old(db_tx)@, *config) - 1) as u128],
                )
            },
    {
        let ghost v0 = old(db_tx)@;
        let best = match db_tx.get_best_block_id() {
            Some(b) => b,
            None => {
                proof {
                    assert(false);
                }
                return Err(BlockError::InvariantErrorInvalidTip);
            },
        };
        proof {
            assert(best != config.genesis_id) by {
                if best == config.genesis_id {
                    assert(tip_height(v0, *config) == 0);
                }
            };
        }
        let bi = match db_tx.get_block_index(best) {
            Some(bi) => bi,
            None => {
                proof {
                    assert(false);
                }
                return Err(BlockError::InvariantErrorInvalidTip);
            },
        };
        let ghost tip = tip_height(v0, *config);
        proof {
            assert(bi.height.val == tip);
            assert(v0.by_height[(tip) as u128] == best);
            assert(v0.by_height[(tip - 1) as u128] == bi.prev_block_id) by {
                assert(v0.block_index[best.value as u128].prev_block_id
                    == v0.by_height[(tip - 1) as u128]);
            };
        }
        let block = {
            let stored = match db_tx.get_block(best) {
                Some(b) => b,
                None => {
                    proof {
                        assert(false);
                    }
                    return Err(BlockError::InvariantErrorInvalidTip);
                },
            };
            stored.duplicate()
        };
        let undo = match db_tx.get_undo_data(best) {
            Some(u) => u.duplicate(),
            None => crate::utxo::BlockUndo::new(),
        };
        let acc_undo = match db_tx.get_accounting_undo(best) {
            Some(u) => u.duplicate(),
            None => crate::accounting::AccountingBlockUndo::new(),
        };
        let mut verifier = TransactionVerifier::new(db_tx, tx_index_enabled);
        let source = TransactionSource::Chain(best);
        verifier.load_block_undo(&source, undo);
        verifier.load_accounting_undo(&source, acc_undo);
        let n = block.transactions.len();
        let mut t: usize = n;
        while t > 0
            invariant
                t <= n,
                n == block.transactions@.len(),
                verifier.wf(),
                db_tx.wf(),
                db_tx@ == v0,
            decreases t,
        {
            t = t - 1;
            match verifier.disconnect_transactable(
                db_tx,
                BlockTransactableRef::Transaction(&block, t),
            ) {
                Ok(_) => {},
                Err(e) => {
                    return Err(BlockError::StateUpdateFailed(e));
                },
            }
        }
        match verifier.disconnect_transactable(db_tx, BlockTransactableRef::BlockReward(&block)) {
            Ok(_) => {},
            Err(e) => {
                return Err(BlockError::StateUpdateFailed(e));
            },
        }
        let delta = match verifier.consume() {
            Ok(d) => d,
            Err(e) => {
                return Err(BlockError::StateUpdateFailed(e));
            },
        };
        match flush_verifier_delta(db_tx, delta) {
            Ok(_) => {},
            Err(e) => {
                return Err(BlockError::StateUpdateFailed(e));
            },
        }
        // the undo is consumed with the block
        db_tx.del_undo_data(best);
        db_tx.del_accounting_undo(best);
        db_tx.del_accounting_delta(best);
        let height = bi.block_height();
        db_tx.del_block_id_at_height(&height);
        db_tx.set_best_block_id(&bi.prev_block_id());
        proof {
            let v = db_tx@;
            assert(v.block_index == v0.block_index);
            assert(v.blocks == v0.blocks);
            assert(v.by_height =~= v0.by_height.remove(tip as u128));
            assert(v.best == Some(bi.prev_block_id));
            if bi.prev_block_id == config.genesis_id {
                assert(tip == 1) by {
                    assert(v0.block_index[best.value as u128].height.val >= 1);
                    if tip > 1 {
                        assert(v0.by_height[(tip - 1) as u128] == config.genesis_id);
                        assert(v0.block_index.contains_key(config.genesis_id.value as u128));
                    }
                };
                assert(tip_height(v, *config) == 0);
            } else {
                assert(v0.block_index.contains_key(bi.prev_block_id.value as u128));
                assert(v0.block_index[bi.prev_block_id.value as u128].height.val == tip - 1);
                assert(tip_height(v, *config) == tip - 1);
            }
            assert(wf_chain(v, *config)) by {
                assert forall|hk: u128| #[trigger] v.by_height.contains_key(hk)
                    implies hk <= tip_height(v, *config) by {
                    assert(v0.by_height.contains_key(hk));
                    assert(hk != tip as u128);
                }
                assert forall|hk: u128| 0 <= hk <= tip_height(v, *config)
                    implies #[trigger] v.by_height.contains_key(hk) by {
                    assert(v0.by_height.contains_key(hk));
                }
                assert forall|hk: u128| #[trigger] v.by_height.contains_key(hk) && 1 <= hk implies {
                    let id = v.by_height[hk];
                    &&& v.block_index.contains_key(id.value as u128)
                    &&& v.block_index[id.value as u128].height.val == hk
                    &&& v.block_index[id.value as u128].prev_block_id == v.by_height[(hk - 1) as u128]
                    &&& v.blocks.contains_key(id.value as u128)
                } by {
                    assert(v.by_height[hk] == v0.by_height[hk]);
                    assert(hk - 1 != tip as u128);
                    assert(v.by_height[(hk - 1) as u128] == v0.by_height[(hk - 1) as u128]);
                }
            };
        }
        Ok(())
    }
}

impl Chainstate {
    /// Fork choice: a candidate becomes the best chain only with
    /// strictly more trust; equal-trust candidates never displace the
    /// first-seen chain. A reorganisation disconnects to the common
    /// ancestor and connects the candidate branch; any failure aborts
    /// it whole.
    #[verifier::rlimit(100)]
    #[verifier::spinoff_prover]
    pub fn activate_best_chain(
        db_tx: &mut StoreTx<'_>,
        config: &ChainConfig,
        tx_index_enabled: bool,
        new_block_index: BlockIndex,
    ) -> (r: Result<Option<BlockIndex>, BlockError>)
        requires
            old(db_tx).wf(),
            config.wf(),
            wf_chain(old(db_tx)@, *config),
            old(db_tx)@.block_index.contains_key(new_block_index.block_id.value as u128),
            old(db_tx)@.block_index[new_block_index.block_id.value as u128] == new_block_index,
            old(db_tx)@.blocks.contains_key(new_block_index.block_id.value as u128),
        ensures
            final(db_tx).wf(),
            final(db_tx).base == old(db_tx).base,
            r == Result::<Option<BlockIndex>, BlockError>::Ok(None)
                ==> final(db_tx)@ == old(db_tx)@
                    && new_block_index.chain_trust <= tip_trust(old(db_tx)@, *config),
            r matches Ok(Some(bi)) ==> {
                &&& bi == new_block_index
                &&& wf_chain(final(db_tx)@, *config)
                &&& final(db_tx)@.best == Some(new_block_index.block_id)
                &&& new_block_index.chain_trust > tip_trust(old(db_tx)@, *config)
            },
            new_block_index.chain_trust > tip_trust(old(db_tx)@, *config)
                ==> r != Result::<Option<BlockIndex>, BlockError>::Ok(None),
    {
        let ghost v0 = old(db_tx)@;
        let current_trust: u128 = {
            let best = match db_tx.get_best_block_id() {
                Some(b) => b,
                None => {
                    proof {
                        assert(false);
                    }
                    return Err(BlockError::InvariantErrorInvalidTip);
                },
            };
            if best.value == config.genesis_block_id().value {
                0
            } else {
                match db_tx.get_block_index(best) {
                    Some(bi) => bi.chain_trust(),
                    None => {
                        proof {
                            assert(false);
                        }
                        0
                    },
                }
            }
        };
        if new_block_index.chain_trust() <= current_trust {
            return Ok(None);
        }

        // the candidate branch, tip first, down to the main chain
        let (path, common_height) = match Self::collect_new_chain_path(db_tx, config, new_block_index) {
            Ok(pc) => pc,
            Err(e) => {
                return Err(e);
            },
        };
        if path.len() == 0 {
            // a candidate with more trust than the tip cannot already
            // stand on the main chain
            return Err(BlockError::InvariantErrorInvalidTip);
        }
        proof {
            assert(common_height <= tip_height(db_tx@, *config)) by {
                assert(db_tx@.by_height.contains_key(common_height as u128));
            };
        }

        // roll the main chain back to the common ancestor
        let ghost pre = db_tx@;
        loop
            invariant
                db_tx.wf(),
                db_tx.base == old(db_tx).base,
                config.wf(),
                wf_chain(db_tx@, *config),
                common_height <= tip_height(db_tx@, *config),
                db_tx@.block_index == v0.block_index,
                db_tx@.blocks == v0.blocks,
                v0.by_height.contains_key(common_height as u128),
                common_height <= tip_height(db_tx@, *config),
                forall|hk: u128| hk <= common_height
                    ==> (#[trigger] db_tx@.by_height.contains_key(hk)
                            == v0.by_height.contains_key(hk))
                        && (v0.by_height.contains_key(hk)
                            ==> db_tx@.by_height[hk] == v0.by_height[hk]),
            ensures
                db_tx.wf(),
                db_tx.base == old(db_tx).base,
                wf_chain(db_tx@, *config),
                tip_height(db_tx@, *config) == common_height,
                db_tx@.block_index == v0.block_index,
                db_tx@.blocks == v0.blocks,
                db_tx@.by_height[common_height as u128] == v0.by_height[common_height as u128],
            decreases tip_height(db_tx@, *config),
        {
            let best = match db_tx.get_best_block_id() {
                Some(b) => b,
                None => {
                    proof {
                        assert(false);
                    }
                    return Err(BlockError::InvariantErrorInvalidTip);
                },
            };
            let at_common = if best.value == config.genesis_block_id().value {
                proof {
                    assert(tip_height(db_tx@, *config) == 0);
                    assert(common_height == 0);
                }
                true
            } else {
                let bi = match db_tx.get_block_index(best) {
                    Some(bi) => bi,
                    None => {
                        proof {
                            assert(false);
                        }
                        return Err(BlockError::InvariantErrorInvalidTip);
                    },
                };
                proof {
                    assert(tip_height(db_tx@, *config) == bi.height.val);
                }
                bi.block_height().get() <= common_height
            };
            if at_common {
                proof {
                    assert(tip_height(db_tx@, *config) == common_height);
                    assert(db_tx@.by_height.contains_key(common_height as u128));
                    assert(db_tx@.by_height[common_height as u128] == v0.by_height[common_height as u128]);
                }
                break;
            }
            match Self::disconnect_tip(db_tx, config, tx_index_enabled) {
                Ok(_) => {},
                Err(e) => {
                    return Err(e);
                },
            }
        }

        // connect the branch, ancestor to tip
        let mut i: usize = path.len();
        proof {
            assert(path@[i - 1].height.val == common_height + 1);
        }
        loop
            invariant
                i <= path@.len(),
                path@.len() > 0,
                db_tx.wf(),
                db_tx.base == old(db_tx).base,
                config.wf(),
                wf_chain(db_tx@, *config),
                db_tx@.block_index == v0.block_index,
                db_tx@.blocks == v0.blocks,
                path@[0] == new_block_index,
                forall|j: int| 0 <= j < path@.len() ==> {
                    &&& v0.block_index.contains_key((#[trigger] path@[j]).block_id.value as u128)
                    &&& v0.block_index[path@[j].block_id.value as u128] == path@[j]
                    &&& v0.blocks.contains_key(path@[j].block_id.value as u128)
                    &&& path@[j].height.val < u64::MAX
                },
                forall|j: int| 0 <= j < path@.len() - 1
                    ==> (#[trigger] path@[j]).prev_block_id == path@[j + 1].block_id
                        && path@[j].height.val == path@[j + 1].height.val + 1,
                i < path@.len() ==> tip_height(db_tx@, *config) == path@[i as int].height.val
                    && db_tx@.best == Some(path@[i as int].block_id),
                i == path@.len() ==> tip_height(db_tx@, *config) == common_height
                    && db_tx@.by_height[common_height as u128] == v0.by_height[common_height as u128]
                    && path@[i - 1].height.val == common_height + 1
                    && path@[i - 1].prev_block_id == v0.by_height[common_height as u128],
            ensures
                db_tx.wf(),
                db_tx.base == old(db_tx).base,
                wf_chain(db_tx@, *config),
                db_tx@.best == Some(new_block_index.block_id),
            decreases i,
        {
            if i == 0 {
                proof {
                    assert(db_tx@.best == Some(path@[0].block_id));
                }
                break;
            }
            i = i - 1;
            let bi = path[i];
            proof {
                if i + 1 < path@.len() {
                    assert(db_tx@.by_height.contains_key((bi.height.val - 1) as u128));
                    assert(db_tx@.by_height[(bi.height.val - 1) as u128] == bi.prev_block_id);
                } else {
                    assert(bi.height.val - 1 == common_height);
                }
            }
            match Self::connect_block(db_tx, config, tx_index_enabled, &bi) {
                Ok(_) => {},
                Err(e) => {
                    return Err(e);
                },
            }
            proof {
                if i > 0 {
                    assert(path@[i - 1].height.val == bi.height.val + 1);
                }
            }
        }
        Ok(Some(new_block_index))
    }
}

impl Chainstate {
    /// The candidate branch from the new tip down to the last block
    /// shared with the main chain, and that ancestor's height.
    #[verifier::rlimit(100)]
    #[verifier::spinoff_prover]
    pub fn collect_new_chain_path(
        db_tx: &StoreTx<'_>,
        config: &ChainConfig,
        new_block_index: BlockIndex,
    ) -> (r: Result<(Vec<BlockIndex>, u64), BlockError>)
        requires
            db_tx.wf(),
            config.wf(),
            wf_chain(db_tx@, *config),
            db_tx@.block_index.contains_key(new_block_index.block_id.value as u128),
            db_tx@.block_index[new_block_index.block_id.value as u128] == new_block_index,
            db_tx@.blocks.contains_key(new_block_index.block_id.value as u128),
        ensures
            r matches Ok((path, common_height)) ==> {
                &&& db_tx@.by_height.contains_key(common_height as u128)
                &&& (path@.len() > 0 ==> path@[0] == new_block_index)
                &&& (path@.len() > 0 ==> path@[path@.len() - 1].height.val == common_height + 1
                    && path@[path@.len() - 1].prev_block_id == db_tx@.by_height[common_height as u128])
                &&& (forall|i: int| 0 <= i < path@.len() ==> {
                    &&& db_tx@.block_index.contains_key((#[trigger] path@[i]).block_id.value as u128)
                    &&& db_tx@.block_index[path@[i].block_id.value as u128] == path@[i]
                    &&& db_tx@.blocks.contains_key(path@[i].block_id.value as u128)
                    &&& path@[i].height.val < u64::MAX
                })
                &&& (forall|i: int| 0 <= i < path@.len() - 1
                    ==> (#[trigger] path@[i]).prev_block_id == path@[i + 1].block_id
                        && path@[i].height.val == path@[i + 1].height.val + 1)
            },
    {
        let ghost v0 = db_tx@;
        let mut path: Vec<BlockIndex> = Vec::new();
        let mut cur = new_block_index;
        let common_height: u64;
        loop
            invariant_except_break
                path@.len() > 0 ==> path@[path@.len() - 1].prev_block_id == cur.block_id
                    && path@[path@.len() - 1].height.val == cur.height.val + 1,
            invariant
                db_tx.wf(),
                db_tx@ == v0,
                config.wf(),
                wf_chain(v0, *config),
                v0.block_index.contains_key(cur.block_id.value as u128),
                v0.block_index[cur.block_id.value as u128] == cur,
                path@.len() == 0 ==> cur == new_block_index,
                forall|i: int| 0 <= i < path@.len() ==> {
                    &&& v0.block_index.contains_key((#[trigger] path@[i]).block_id.value as u128)
                    &&& v0.block_index[path@[i].block_id.value as u128] == path@[i]
                    &&& v0.blocks.contains_key(path@[i].block_id.value as u128)
                    &&& path@[i].height.val < u64::MAX
                },
                forall|i: int| 0 <= i < path@.len() - 1
                    ==> (#[trigger] path@[i]).prev_block_id == path@[i + 1].block_id
                        && path@[i].height.val == path@[i + 1].height.val + 1,
                path@.len() > 0 ==> path@[0] == new_block_index,
            ensures
                db_tx@ == v0,
                v0.by_height.contains_key(common_height as u128),
                path@.len() > 0 ==> path@[0] == new_block_index,
                path@.len() > 0 ==> path@[path@.len() - 1].height.val == common_height + 1
                    && path@[path@.len() - 1].prev_block_id == v0.by_height[common_height as u128],
                forall|i: int| 0 <= i < path@.len() ==> {
                    &&& v0.block_index.contains_key((#[trigger] path@[i]).block_id.value as u128)
                    &&& v0.block_index[path@[i].block_id.value as u128] == path@[i]
                    &&& v0.blocks.contains_key(path@[i].block_id.value as u128)
                    &&& path@[i].height.val < u64::MAX
                },
                forall|i: int| 0 <= i < path@.len() - 1
                    ==> (#[trigger] path@[i]).prev_block_id == path@[i + 1].block_id
                        && path@[i].height.val == path@[i + 1].height.val + 1,
            decreases cur.height.val,
        {
            // a block already on the main chain ends the walk
            let on_main = match db_tx.get_block_id_by_height(&cur.block_height()) {
                Some(id) => id.value == cur.block_id.value,
                None => false,
            };
            if on_main {
                common_height = cur.block_height().get();
                proof {
                    if path@.len() > 0 {
                        assert(path@[path@.len() - 1].prev_block_id == v0.by_height[common_height as u128]);
                    }
                }
                break;
            }
            path.push(cur);
            if cur.prev_block_id().value == config.genesis_block_id().value {
                common_height = 0;
                break;
            }
            let ghost cur0 = cur;
            let prev = match db_tx.get_block_index(*cur.prev_block_id()) {
                Some(p) => p,
                None => {
                    proof {
                        assert(false);
                    }
                    return Err(BlockError::InvariantErrorFailedToFindNewChainPath(cur.block_id));
                },
            };
            proof {
                assert(v0.block_index[cur0.prev_block_id.value as u128].block_id.value
                    == cur0.prev_block_id.value);
                assert(prev.block_id == cur0.prev_block_id);
                assert(prev.height.val == cur0.height.val - 1);
                assert(path@[path@.len() - 1] == cur0);
            }
            cur = prev;
        }
        Ok((path, common_height))
    }
}

impl Chainstate {
    /// The tip distances a locator samples: zero, then the powers of
    /// two.
    pub fn locator_tip_distances(count: usize) -> (r: Vec<i64>)
        ensures
            r@.len() == count,
            count > 0 ==> r@[0] == 0,
            count > 1 ==> r@[1] == 1,
    {
        let mut out: Vec<i64> = Vec::new();
        if count == 0 {
            return out;
        }
        out.push(0);
        let mut d: i64 = 1;
        let mut i: usize = 1;
        while i < count
            invariant
                1 <= i <= count,
                out@.len() == i,
                out@[0] == 0,
                1 <= d,
                i == 1 ==> d == 1,
                i > 1 ==> out@[1] == 1,
            decreases count - i,
        {
            out.push(d);
            proof {
                assert(out@[i as int] == d);
            }
            d = match d.checked_mul(2) {
                Some(x) => x,
                None => d,
            };
            i = i + 1;
        }
        out
    }
}

/// Walks from a block back in history: each step yields the current
/// index record and moves to its parent, ending after the genesis.
pub struct BlockIndexHistoryIterator {
    pub next_id: Option<Id>,
}

impl BlockIndexHistoryIterator {
    pub fn new(starting_id: Id) -> (r: BlockIndexHistoryIterator)
        ensures
            r.next_id == Some(starting_id),
    {
        BlockIndexHistoryIterator { next_id: Some(starting_id) }
    }

    /// The next record toward the chain start; `None` once the
    /// genesis was yielded or an unknown id is met.
    pub fn next(&mut self, db_tx: &StoreTx<'_>, config: &ChainConfig) -> (r: Option<GenBlockIndex>)
        requires
            db_tx.wf(),
            config.wf(),
        ensures
            old(self).next_id is None ==> r is None && final(self).next_id is None,
            old(self).next_id matches Some(id) ==> {
                &&& (id == config.genesis_id ==> r == Some(
                    GenBlockIndex::Genesis(id, config.genesis_block.header.timestamp),
                ) && final(self).next_id is None)
                &&& (id != config.genesis_id && db_tx@.block_index.contains_key(id.value as u128) ==> {
                    &&& r == Some(GenBlockIndex::Block(db_tx@.block_index[id.value as u128]))
                    &&& final(self).next_id == Some(
                        db_tx@.block_index[id.value as u128].prev_block_id,
                    )
                })
                &&& (id != config.genesis_id && !db_tx@.block_index.contains_key(id.value as u128)
                    ==> r is None && final(self).next_id is None)
            },
    {
        let id = match self.next_id {
            Some(id) => id,
            None => {
                return None;
            },
        };
        if id.value == config.genesis_block_id().value {
            self.next_id = None;
            return Some(GenBlockIndex::Genesis(id, config.genesis_block().timestamp()));
        }
        match db_tx.get_block_index(id) {
            Some(bi) => {
                self.next_id = Some(*bi.prev_block_id());
                Some(GenBlockIndex::Block(bi))
            },
            None => {
                self.next_id = None;
                None
            },
        }
    }
}

/// The height a block with this parent lands at.
pub open spec fn spec_child_height(v: ChainView, config: ChainConfig, prev: Id) -> int {
    if prev == config.genesis_id {
        1
    } else {
        v.block_index[prev.value as u128].height.val + 1
    }
}

impl Chainstate {
    /// Header validation: the parent must be known, the timestamp
    /// must not be too far in the future nor before the median time
    /// past, and the consensus payload must satisfy the rule the
    /// schedule sets for the block's height.
    pub fn check_block_header(
        db_tx: &StoreTx<'_>,
        config: &ChainConfig,
        now: TimeSpan,
        header: &BlockHeader,
    ) -> (r: Result<(), CheckBlockError>)
        requires
            db_tx.wf(),
            config.wf(),
            wf_chain(db_tx@, *config),
        ensures
            ({
                let prev = header.prev_block_id;
                let prev_known = prev == config.genesis_id
                    || db_tx@.block_index.contains_key(prev.value as u128);
                &&& (!prev_known ==> r == Result::<(), CheckBlockError>::Err(
                    CheckBlockError::PrevBlockNotFound(prev),
                ))
                &&& (r is Ok ==> {
                    let h = spec_child_height(db_tx@, *config, prev);
                    let required = crate::config::spec_upgrade_at(
                        config.net_upgrades.upgrades@,
                        h as u64,
                    );
                    &&& prev_known
                    &&& header.timestamp.timestamp
                        <= now.secs + config.max_future_block_time_offset.secs
                    &&& (required is IgnoreConsensus ==> header.consensus_data is NoConsensus)
                    &&& (required is PoW ==> header.consensus_data is PoW)
                    &&& (required is PoS ==> header.consensus_data is PoS)
                    &&& (required matches crate::config::ConsensusUpgrade::PoW { initial_difficulty }
                        ==> (header.consensus_data matches ConsensusData::PoW(pow)
                            ==> pow.bits == initial_difficulty
                                && (initial_difficulty.spec_target() matches Some(t)
                                    ==> crate::consensus::spec_pow_hash(header.spec_id()) <= t)))
                })
            }),
    {
        let prev = *header.prev_block_id();
        let height: BlockHeight = if prev.value == config.genesis_block_id().value {
            BlockHeight::new(1)
        } else {
            match db_tx.get_block_index(prev) {
                Some(pbi) => {
                    let ph = pbi.block_height().get();
                    if ph >= u64::MAX - 1 {
                        // such a parent cannot take a child; the
                        // chain invariant keeps heights below this
                        return Err(CheckBlockError::PrevBlockNotFound(prev));
                    }
                    BlockHeight::new(ph + 1)
                },
                None => {
                    return Err(CheckBlockError::PrevBlockNotFound(prev));
                },
            }
        };
        // not too far in the future
        let limit = now.saturating_add(*config.max_future_block_time_offset());
        if (header.timestamp().as_int_seconds() as u64) > limit.as_secs() {
            return Err(CheckBlockError::BlockFromTheFuture);
        }
        // not before the median time of the recent past
        let median = crate::consensus::calculate_median_time_past(db_tx, &prev, config);
        if header.timestamp().as_int_seconds() < median.as_int_seconds() {
            return Err(CheckBlockError::BlockTimeOrderInvalid);
        }
        match crate::consensus::validate_consensus(config, height, header, db_tx) {
            Ok(_) => Ok(()),
            Err(e) => Err(CheckBlockError::ConsensusVerificationFailed(e)),
        }
    }

    /// Full block validation: the header gate, and no transaction may
    /// name one outpoint twice.
    pub fn check_block(
        db_tx: &StoreTx<'_>,
        config: &ChainConfig,
        now: TimeSpan,
        block: &Block,
    ) -> (r: Result<(), CheckBlockError>)
        requires
            db_tx.wf(),
            config.wf(),
            wf_chain(db_tx@, *config),
        ensures
            r is Ok ==> forall|t: int| 0 <= t < block.transactions@.len()
                ==> !(exists|a: int, b: int|
                    0 <= a < b < (#[trigger] block.transactions@[t]).transaction.inputs@.len()
                    && #[trigger] block.transactions@[t].transaction.inputs@[a].outpoint
                        == #[trigger] block.transactions@[t].transaction.inputs@[b].outpoint),
    {
        match Self::check_block_header(db_tx, config, now, block.header()) {
            Ok(_) => {},
            Err(e) => {
                return Err(e);
            },
        }
        let n = block.transactions.len();
        let mut t: usize = 0;
        while t < n
            invariant
                t <= n,
                n == block.transactions@.len(),
                forall|t2: int| 0 <= t2 < t
                    ==> !(exists|a: int, b: int|
                        0 <= a < b < (#[trigger] block.transactions@[t2]).transaction.inputs@.len()
                        && #[trigger] block.transactions@[t2].transaction.inputs@[a].outpoint
                            == #[trigger] block.transactions@[t2].transaction.inputs@[b].outpoint),
            decreases n - t,
        {
            if crate::tx_verifier::has_duplicate_input(&block.transactions[t].transaction.inputs) {
                let txid = block.transactions[t].transaction.get_id();
                return Err(CheckBlockError::CheckTransactionFailed(
                    CheckBlockTransactionsError::DuplicateInputInTransaction(txid),
                ));
            }
            t = t + 1;
        }
        Ok(())
    }

    /// The orphan gate: a block whose parent is unknown is buffered
    /// when a peer sent it, and is an error for a local caller.
    pub fn check_legitimate_orphan(&mut self, block_source: BlockSource, block: Block) -> (r: Result<
        Block,
        BlockError,
    >)
        requires
            old(self).wf(),
            block.wf(),
        ensures
            final(self).wf(),
            final(self).chainstate_storage == old(self).chainstate_storage,
            final(self).chain_config == old(self).chain_config,
            final(self).chainstate_config == old(self).chainstate_config,
            final(self).events_controller == old(self).events_controller,
            final(self).current_time == old(self).current_time,
            r matches Ok(b) ==> b == block && final(self).orphan_blocks == old(self).orphan_blocks,
            ({
                let prev = block.header.prev_block_id;
                let known = prev == old(self).chain_config.genesis_id
                    || old(self).chainstate_storage@.block_index.contains_key(prev.value as u128);
                &&& (known ==> (r matches Ok(b) && b == block))
                &&& (block_source == BlockSource::Local
                    ==> final(self).orphan_blocks == old(self).orphan_blocks)
                &&& (!known && block_source == BlockSource::Local
                    ==> r == Result::<Block, BlockError>::Err(BlockError::OrphanCheckFailed(
                        OrphanCheckError::LocalOrphan,
                    )))
                &&& (!known && block_source == BlockSource::Peer
                    ==> r == Result::<Block, BlockError>::Err(BlockError::OrphanCheckFailed(
                        OrphanCheckError::PrevBlockIdNotFound,
                    )))
            }),
    {
        let prev = *block.prev_block_id();
        let known = if prev.value == self.chain_config.genesis_block_id().value {
            true
        } else {
            let ro = self.chainstate_storage.transaction_ro();
            ro.get_block_index(prev).is_some()
        };
        if known {
            return Ok(block);
        }
        match block_source {
            BlockSource::Local => Err(BlockError::OrphanCheckFailed(OrphanCheckError::LocalOrphan)),
            BlockSource::Peer => {
                // buffered; re-announcing an already-buffered block
                // changes nothing
                let _ = self.orphan_blocks.add_block(block);
                Err(BlockError::OrphanCheckFailed(OrphanCheckError::PrevBlockIdNotFound))
            },
        }
    }

    /// Seal the epoch that falls due when a block at `height` closes
    /// its epoch: merge every accounting delta of the epoch at
    /// sealing distance into the sealed tables, and record the sealed
    /// epoch's randomness. Runs inside the block's own transaction,
    /// so a failed reorg never half-seals.
    #[verifier::rlimit(60)]
    pub fn seal_epoch_in_tx(
        db_tx: &mut StoreTx<'_>,
        config: &ChainConfig,
        height: BlockHeight,
    ) -> (r: Result<(), BlockError>)
        requires
            old(db_tx).wf(),
            config.wf(),
        ensures
            final(db_tx).wf(),
            final(db_tx).base == old(db_tx).base,
            // only the sealed tables and the epoch record may move
            final(db_tx)@ == (ChainView {
                sealed_pool_data: final(db_tx)@.sealed_pool_data,
                sealed_pool_balances: final(db_tx)@.sealed_pool_balances,
                epoch_data: final(db_tx)@.epoch_data,
                ..old(db_tx)@
            }),
            ({
                let current_epoch = height.val / config.epoch_length;
                let dist = config.sealed_epoch_distance_from_tip as u64;
                let due = height.val as int % config.epoch_length as int == config.epoch_length - 1;
                r is Ok && due && current_epoch >= dist && dist <= u64::MAX - 1
                    ==> final(db_tx)@.epoch_data.contains_key((current_epoch - dist) as u128)
            }),
    {
        let current_epoch = config.epoch_index_from_height(&height);
        if !config.is_last_block_in_epoch(&height) {
            return Ok(());
        }
        let dist = config.sealed_epoch_distance_from_tip() as u64;
        if dist > u64::MAX - 1 || current_epoch < dist {
            return Ok(());
        }
        let epoch_to_seal = current_epoch - dist;
        let epoch_length = config.epoch_length();
        proof {
            assert(epoch_to_seal * epoch_length <= height.val) by (nonlinear_arith)
                requires
                    epoch_to_seal <= height.val / epoch_length,
                    epoch_length >= 1,
            ;
        }
        let first = epoch_to_seal * epoch_length;
        let mut merged = crate::accounting::PoSAccountingDeltaData::new();
        let mut offset: u64 = 0;
        let mut last_id_word: u64 = 0;
        while offset < epoch_length
            invariant
                db_tx.wf(),
                db_tx.base == old(db_tx).base,
                db_tx@ == old(db_tx)@,
                merged.wf(),
                config.wf(),
            decreases epoch_length - offset,
        {
            let hh = match first.checked_add(offset) {
                Some(h) => h,
                None => {
                    break;
                },
            };
            match db_tx.get_block_id_by_height(&BlockHeight::new(hh)) {
                Some(id) => {
                    last_id_word = id.get();
                    if id.value != config.genesis_block_id().value {
                        match db_tx.get_accounting_delta(id) {
                            Some(d) => {
                                let copy = d.duplicate();
                                match merged.merge_with_delta(copy) {
                                    Ok(_) => {},
                                    Err(_) => {
                                        return Err(BlockError::PoSAccountingDeltaNotFound(id));
                                    },
                                }
                            },
                            // a block without stake operations left no
                            // delta; there is nothing of it to seal
                            None => {},
                        }
                    }
                },
                None => {},
            }
            offset = offset + 1;
        }
        // flush the merged epoch delta to the sealed tables
        let n = merged.created_pools.len();
        let mut i: usize = 0;
        while i < n
            invariant
                i <= n,
                db_tx.wf(),
                db_tx.base == old(db_tx).base,
                merged.wf(),
                n == merged.created_pools.seq().len(),
                db_tx@ == (ChainView {
                    sealed_pool_data: db_tx@.sealed_pool_data,
                    ..old(db_tx)@
                }),
            decreases n - i,
        {
            let entry = merged.created_pools.entry_at(i);
            db_tx.set_sealed_pool_data(Id::new(entry.0 as u64), entry.1);
            i = i + 1;
        }
        let m = merged.balance_additions.len();
        let mut j: usize = 0;
        while j < m
            invariant
                j <= m,
                db_tx.wf(),
                db_tx.base == old(db_tx).base,
                merged.wf(),
                m == merged.balance_additions.seq().len(),
                db_tx@ == (ChainView {
                    sealed_pool_data: db_tx@.sealed_pool_data,
                    sealed_pool_balances: db_tx@.sealed_pool_balances,
                    ..old(db_tx)@
                }),
            decreases m - j,
        {
            let entry = merged.balance_additions.entry_at(j);
            let pool = Id::new(entry.0 as u64);
            let prior = match db_tx.get_sealed_pool_balance(pool) {
                Some(b) => b,
                None => crate::amount::Amount::from_atoms(0),
            };
            match prior.add(entry.1) {
                Some(total) => {
                    db_tx.set_sealed_pool_balance(pool, total);
                },
                None => {
                    return Err(BlockError::PoSAccountingDeltaNotFound(pool));
                },
            }
            j = j + 1;
        }
        // the sealed epoch's randomness derives from its last block
        let mut stream = crate::hashing::DefaultHashAlgoStream::new();
        stream.write_u64(config.initial_randomness());
        stream.write_u64(last_id_word);
        db_tx.set_epoch_data(epoch_to_seal, crate::accounting::EpochData::new(stream.finalize()));
        Ok(())
    }

    /// Seal whatever epoch falls due at this height, in a transaction
    /// of its own.
    pub fn activate_seal_epoch(&mut self, height: BlockHeight) -> (r: Result<(), BlockError>)
        requires
            old(self).wf(),
        ensures
            final(self).wf(),
            final(self).chain_config == old(self).chain_config,
            final(self).chainstate_config == old(self).chainstate_config,
            final(self).orphan_blocks == old(self).orphan_blocks,
            final(self).events_controller == old(self).events_controller,
            final(self).chainstate_storage@ == (ChainView {
                sealed_pool_data: final(self).chainstate_storage@.sealed_pool_data,
                sealed_pool_balances: final(self).chainstate_storage@.sealed_pool_balances,
                epoch_data: final(self).chainstate_storage@.epoch_data,
                ..old(self).chainstate_storage@
            }),
            ({
                let current_epoch = height.val / old(self).chain_config.epoch_length;
                let dist = old(self).chain_config.sealed_epoch_distance_from_tip as u64;
                let due = height.val as int % old(self).chain_config.epoch_length as int
                    == old(self).chain_config.epoch_length - 1;
                r is Ok && due && current_epoch >= dist && dist <= u64::MAX - 1
                    ==> final(self).chainstate_storage@.epoch_data.contains_key(
                        (current_epoch - dist) as u128,
                    )
            }),
    {
        let mut db_tx = self.chainstate_storage.transaction_rw();
        let sealed = Self::seal_epoch_in_tx(&mut db_tx, &self.chain_config, height);
        match sealed {
            Ok(_) => {},
            Err(e) => {
                return Err(e);
            },
        }
        let delta = db_tx.consume();
        self.chainstate_storage.apply_delta(delta);
        proof {
            assert(wf_chain(self.chainstate_storage@, self.chain_config)) by {
                assert(tip_height(self.chainstate_storage@, self.chain_config)
                    == tip_height(old(self).chainstate_storage@, old(self).chain_config));
            };
        }
        Ok(())
    }
}

impl Chainstate {
    /// One block through the pipeline, without orphan draining or
    /// events: orphan gate, validation, acceptance, fork choice,
    /// epoch sealing, and one atomic commit. A failing step drops the
    /// write transaction, so an error leaves the store untouched and
    /// no partial reorganisation is ever observable.
    #[verifier::rlimit(100)]
    pub fn process_block_inner(&mut self, block: Block, block_source: BlockSource) -> (r: Result<
        Option<BlockIndex>,
        BlockError,
    >)
        requires
            old(self).wf(),
            block.wf(),
        ensures
            final(self).wf(),
            final(self).chain_config == old(self).chain_config,
            final(self).chainstate_config == old(self).chainstate_config,
            final(self).events_controller == old(self).events_controller,
            final(self).current_time == old(self).current_time,
            r is Err ==> final(self).chainstate_storage@ == old(self).chainstate_storage@,
            r matches Ok(Some(bi)) ==> {
                &&& final(self).chainstate_storage@.best == Some(bi.block_id)
                &&& bi.chain_trust > tip_trust(old(self).chainstate_storage@, old(self).chain_config)
            },
            r == Result::<Option<BlockIndex>, BlockError>::Ok(None)
                ==> final(self).chainstate_storage@.best == old(self).chainstate_storage@.best,
            block_source == BlockSource::Local
                ==> final(self).orphan_blocks == old(self).orphan_blocks,
    {
        let block = match self.check_legitimate_orphan(block_source, block) {
            Ok(b) => b,
            Err(e) => {
                return Err(e);
            },
        };
        let mut db_tx = self.chainstate_storage.transaction_rw();
        match Self::check_block(&db_tx, &self.chain_config, self.current_time, &block) {
            Ok(_) => {},
            Err(e) => {
                return Err(BlockError::CheckBlockFailed(e));
            },
        }
        let block_index = match Self::accept_block(&mut db_tx, &self.chain_config, block) {
            Ok(bi) => bi,
            Err(e) => {
                return Err(e);
            },
        };
        let block_height = block_index.block_height();
        let result = match Self::activate_best_chain(
            &mut db_tx,
            &self.chain_config,
            self.chainstate_config.tx_index_enabled,
            block_index,
        ) {
            Ok(res) => res,
            Err(e) => {
                return Err(e);
            },
        };
        match Self::seal_epoch_in_tx(&mut db_tx, &self.chain_config, block_height) {
            Ok(_) => {},
            Err(e) => {
                return Err(e);
            },
        }
        let delta = db_tx.consume();
        match self.chainstate_storage.commit(delta) {
            Ok(_) => {},
            Err(_) => {
                proof {
                    assert(false);
                }
                return Err(BlockError::InvariantErrorInvalidTip);
            },
        }
        proof {
            assert(wf_chain(self.chainstate_storage@, self.chain_config));
        }
        Ok(result)
    }

    /// The whole acceptance pipeline for one candidate block: process
    /// it, drain every orphan the new block resolves (recursively, in
    /// arrival order), and announce the final tip once. A commit
    /// failure would be retried up to the configured attempt count;
    /// the in-memory store commits on the first attempt.
    #[verifier::rlimit(100)]
    pub fn attempt_to_process_block(
        &mut self,
        block: Block,
        block_source: BlockSource,
        attempt_number: usize,
    ) -> (r: Result<Option<BlockIndex>, BlockError>)
        requires
            old(self).wf(),
            block.wf(),
        ensures
            final(self).wf(),
            final(self).chain_config == old(self).chain_config,
            final(self).chainstate_config == old(self).chainstate_config,
            r is Err ==> final(self).chainstate_storage@ == old(self).chainstate_storage@
                && final(self).events_controller.events == old(self).events_controller.events,
            r matches Ok(Some(bi)) ==> {
                &&& final(self).chainstate_storage@.best == Some(bi.block_id)
                &&& final(self).events_controller.events@
                    == old(self).events_controller.events@.push(
                        ChainstateEvent::NewTip(bi.block_id, bi.height),
                    )
            },
            r == Result::<Option<BlockIndex>, BlockError>::Ok(None)
                ==> final(self).events_controller.events == old(self).events_controller.events,
        decreases old(self).chainstate_config.max_db_commit_attempts - attempt_number, 1int,
    {
        let _ = attempt_number;
        let first_id = block.get_id();
        let mut result = match self.process_block_inner(block, block_source) {
            Ok(res) => res,
            Err(e) => {
                return Err(e);
            },
        };

        // drain the orphans the connected chain resolves: children of
        // each newly processed block join the queue in arrival order
        let mut queue: Vec<Block> = self.orphan_blocks.take_all_children_of(&first_id);
        loop
            invariant
                self.wf(),
                self.chain_config == old(self).chain_config,
                self.chainstate_config == old(self).chainstate_config,
                self.events_controller == old(self).events_controller,
                result matches Some(bi)
                    ==> self.chainstate_storage@.best == Some(bi.block_id),
                forall|i: int| 0 <= i < queue@.len() ==> (#[trigger] queue@[i]).wf(),
            ensures
                self.wf(),
                self.chain_config == old(self).chain_config,
                self.chainstate_config == old(self).chainstate_config,
                self.events_controller == old(self).events_controller,
                result matches Some(bi)
                    ==> self.chainstate_storage@.best == Some(bi.block_id),
            decreases queue@.len() + self.orphan_blocks@.len(),
        {
            let next = match queue.pop() {
                Some(b) => b,
                None => {
                    break;
                },
            };
            let next_id = next.get_id();
            let ghost pool0 = self.orphan_blocks@.len();
            match self.process_block_inner(next, BlockSource::Local) {
                Ok(Some(bi)) => {
                    result = Some(bi);
                    let mut children = self.orphan_blocks.take_all_children_of(&next_id);
                    queue.append(&mut children);
                },
                Ok(None) => {
                    let mut children = self.orphan_blocks.take_all_children_of(&next_id);
                    queue.append(&mut children);
                },
                // a failing orphan is dropped; the original caller's
                // result is unaffected
                Err(_) => {},
            }
        }

        // one announcement for the final tip
        match &result {
            Some(bi) => {
                self.events_controller.broadcast(ChainstateEvent::NewTip(*bi.block_id(), bi.block_height()));
                let ts = bi.block_timestamp();
                let fresh = self.is_fresh_block(&ts);
                self.is_initial_block_download_finished = fresh;
            },
            None => {},
        }
        Ok(result)
    }

    /// Accept one candidate block and everything it resolves; the
    /// new best tip's index is returned when the best chain moved.
    pub fn process_block(&mut self, block: Block, block_source: BlockSource) -> (r: Result<
        Option<BlockIndex>,
        BlockError,
    >)
        requires
            old(self).wf(),
            block.wf(),
        ensures
            final(self).wf(),
            final(self).chain_config == old(self).chain_config,
            final(self).chainstate_config == old(self).chainstate_config,
            r is Err ==> final(self).chainstate_storage@ == old(self).chainstate_storage@
                && final(self).events_controller.events == old(self).events_controller.events,
            r matches Ok(Some(bi)) ==> {
                &&& final(self).chainstate_storage@.best == Some(bi.block_id)
                &&& final(self).events_controller.events@
                    == old(self).events_controller.events@.push(
                        ChainstateEvent::NewTip(bi.block_id, bi.height),
                    )
            },
            r == Result::<Option<BlockIndex>, BlockError>::Ok(None)
                ==> final(self).events_controller.events == old(self).events_controller.events,
    {
        self.attempt_to_process_block(block, block_source, 0)
    }

    /// The retry path for a failed commit: below the configured
    /// attempt bound the whole pipeline runs again from scratch;
    /// at the bound the failure is fatal for this block.
    pub fn process_db_commit_error(
        &mut self,
        block: Block,
        block_source: BlockSource,
        attempt_number: usize,
    ) -> (r: Result<Option<BlockIndex>, BlockError>)
        requires
            old(self).wf(),
            block.wf(),
        ensures
            final(self).wf(),
        decreases old(self).chainstate_config.max_db_commit_attempts - attempt_number, 2int,
    {
        if attempt_number >= self.chainstate_config.max_db_commit_attempts {
            let id = block.get_id();
            Err(BlockError::DatabaseCommitError(id, self.chainstate_config.max_db_commit_attempts))
        } else {
            self.attempt_to_process_block(block, block_source, attempt_number + 1)
        }
    }

    /// Whether a block timestamp is newer than the configured maximum
    /// tip age.
    pub fn is_fresh_block(&self, time: &BlockTimestamp) -> (r: bool)
        ensures
            ({
                let sum = if time.timestamp + self.chainstate_config.max_tip_age.secs <= u64::MAX {
                    time.timestamp + self.chainstate_config.max_tip_age.secs
                } else {
                    u64::MAX as int
                };
                r == (sum > self.current_time.secs)
            }),
    {
        let age_limit = TimeSpan::from_secs(time.as_int_seconds() as u64)
            .saturating_add(self.chainstate_config.max_tip_age);
        age_limit.as_secs() > self.current_time.as_secs()
    }

    /// Whether the node still considers itself syncing: the tip is
    /// older than the maximum tip age and no fresh tip has been seen.
    pub fn is_initial_block_download(&self) -> (r: Result<bool, PropertyQueryError>)
        requires
            self.wf(),
        ensures
            self.is_initial_block_download_finished
                ==> r == Result::<bool, PropertyQueryError>::Ok(false),
    {
        if self.is_initial_block_download_finished {
            return Ok(false);
        }
        let ro = self.chainstate_storage.transaction_ro();
        let best = match ro.get_best_block_id() {
            Some(b) => b,
            None => {
                proof {
                    assert(false);
                }
                return Err(PropertyQueryError::BestBlockIndexNotFound);
            },
        };
        if best.value == self.chain_config.genesis_block_id().value {
            // only the genesis exists: still syncing
            return Ok(true);
        }
        let bi = match ro.get_block_index(best) {
            Some(bi) => bi,
            None => {
                proof {
                    assert(false);
                }
                return Err(PropertyQueryError::BestBlockIndexNotFound);
            },
        };
        let ts = bi.block_timestamp();
        Ok(!self.is_fresh_block(&ts))
    }

    /// The stateless-ish gate a relay may run before acceptance.
    pub fn preliminary_block_check(&self, block: Block) -> (r: Result<Block, BlockError>)
        requires
            self.wf(),
            block.wf(),
        ensures
            r matches Ok(b) ==> b == block,
    {
        let ro = self.chainstate_storage.transaction_ro();
        match Self::check_block(&ro, &self.chain_config, self.current_time, &block) {
            Ok(_) => Ok(block),
            Err(e) => Err(BlockError::CheckBlockFailed(e)),
        }
    }

    /// The header-only gate.
    pub fn preliminary_header_check(&self, header: BlockHeader) -> (r: Result<(), BlockError>)
        requires
            self.wf(),
    {
        let ro = self.chainstate_storage.transaction_ro();
        match Self::check_block_header(&ro, &self.chain_config, self.current_time, &header) {
            Ok(_) => Ok(()),
            Err(e) => Err(BlockError::CheckBlockFailed(e)),
        }
    }
}

} // verus!
