//! The transaction verifier: validates a transaction or block reward
//! against the ledger views, applies its effect as an in-memory
//! delta, and records undo data sufficient to reverse it exactly.

use vstd::prelude::*;

use crate::amount::Amount;
use crate::block::{Block, ConsensusData};
use crate::collections::{eff_map, UMap};
use crate::config::ChainConfig;
use crate::errors::{ConnectTransactionError, TokensError, TxIndexError};
use crate::index::{BlockIndex, Spender, TxMainChainIndex};
use crate::output::{OutputPurpose, OutputTimeLock, OutputValue, TxOutput};
use crate::primitives::{BlockHeight, Id, OutPoint, OutPointSourceId};
use crate::spend_cache::{CachedInputs, ConsumedCachedInputs, SpendKind};
use crate::storage::{ChainView, StoreTx};
use crate::timestamp::BlockTimestamp;
use crate::transaction::{SignedTransaction, Transaction, TransactionV, TxInput};
use crate::utxo::{BlockRewardUndo, BlockUndo, TxUndo, Utxo};

verus! {

/// The fee a transaction leaves behind: its coin inputs less its
/// coin outputs. Never interchangeable with a plain amount.
#[derive(Debug, Clone, Copy, PartialEq, Eq, Structural, PartialOrd, Ord)]
pub struct Fee(pub Amount);

/// The subsidy a block may mint. Never interchangeable with a fee.
#[derive(Debug, Clone, Copy, PartialEq, Eq, Structural)]
pub struct Subsidy(pub Amount);

/// An asset: the native coin or the token issued by a transaction.
#[derive(Debug, Clone, Copy, PartialEq, Eq, Structural)]
pub enum CoinOrTokenId {
    Coin,
    TokenId(Id),
}

pub const ASSET_TOKEN_MULTIPLIER: u128 = 0x10000000000000000;

impl CoinOrTokenId {
    /// The key an asset's running total is kept under; injective.
    pub open spec fn spec_key(self) -> u128 {
        match self {
            CoinOrTokenId::Coin => 0,
            CoinOrTokenId::TokenId(id) => (ASSET_TOKEN_MULTIPLIER + id.value as u128) as u128,
        }
    }

    pub fn key(&self) -> (r: u128)
        ensures
            r == self.spec_key(),
    {
        match self {
            CoinOrTokenId::Coin => 0,
            CoinOrTokenId::TokenId(id) => ASSET_TOKEN_MULTIPLIER + id.value as u128,
        }
    }
}

/// Asset keys identify assets.
pub proof fn lemma_asset_key_injective(a: CoinOrTokenId, b: CoinOrTokenId)
    requires
        a.spec_key() == b.spec_key(),
    ensures
        a == b,
{
}

/// What an unspent output contributes to an asset when spent: coins
/// to the coin total, a token transfer to its token, an issuance to
/// the token named after the issuing transaction.
pub open spec fn utxo_asset_amount(value: OutputValue, source: OutPointSourceId, a: CoinOrTokenId) -> int {
    match value {
        OutputValue::Coin(amt) => if a is Coin { amt@ } else { 0 },
        OutputValue::TokenTransfer(tid, amt) => if a == CoinOrTokenId::TokenId(tid) { amt@ } else { 0 },
        OutputValue::TokenIssuance(amt) => match source {
            OutPointSourceId::Transaction(tid) => if a == CoinOrTokenId::TokenId(tid) { amt@ } else { 0 },
            OutPointSourceId::BlockReward(_) => 0,
        },
    }
}

/// The asset an unspent output's value belongs to.
pub open spec fn utxo_asset_of(value: OutputValue, source: OutPointSourceId) -> CoinOrTokenId {
    match value {
        OutputValue::Coin(_) => CoinOrTokenId::Coin,
        OutputValue::TokenTransfer(tid, _) => CoinOrTokenId::TokenId(tid),
        OutputValue::TokenIssuance(_) => match source {
            OutPointSourceId::Transaction(tid) => CoinOrTokenId::TokenId(tid),
            OutPointSourceId::BlockReward(_) => CoinOrTokenId::Coin,
        },
    }
}

pub open spec fn utxo_own_amount(value: OutputValue, source: OutPointSourceId) -> int {
    match value {
        OutputValue::Coin(amt) => amt@,
        OutputValue::TokenTransfer(_, amt) => amt@,
        OutputValue::TokenIssuance(amt) => match source {
            OutPointSourceId::Transaction(_) => amt@,
            OutPointSourceId::BlockReward(_) => 0,
        },
    }
}

/// The total a list of inputs draws from an asset, reading the given
/// unspent-output map; an absent outpoint contributes nothing.
pub open spec fn spec_inputs_asset_total(
    u: Map<u128, Utxo>,
    inputs: Seq<TxInput>,
    a: CoinOrTokenId,
) -> int
    decreases inputs.len(),
{
    if inputs.len() == 0 {
        0
    } else {
        spec_inputs_asset_total(u, inputs.drop_last(), a) + {
            let k = inputs.last().outpoint.spec_key();
            if u.contains_key(k) {
                utxo_asset_amount(u[k].output.value, inputs.last().outpoint.source, a)
            } else {
                0
            }
        }
    }
}

/// What an output adds to an asset; issuance counts toward the token
/// named after the creating transaction.
pub open spec fn output_asset_amount(value: OutputValue, txid: Id, a: CoinOrTokenId) -> int {
    match value {
        OutputValue::Coin(amt) => if a is Coin { amt@ } else { 0 },
        OutputValue::TokenTransfer(tid, amt) => if a == CoinOrTokenId::TokenId(tid) { amt@ } else { 0 },
        OutputValue::TokenIssuance(amt) => if a == CoinOrTokenId::TokenId(txid) { amt@ } else { 0 },
    }
}

pub open spec fn output_asset_of(value: OutputValue, txid: Id) -> CoinOrTokenId {
    match value {
        OutputValue::Coin(_) => CoinOrTokenId::Coin,
        OutputValue::TokenTransfer(tid, _) => CoinOrTokenId::TokenId(tid),
        OutputValue::TokenIssuance(_) => CoinOrTokenId::TokenId(txid),
    }
}

pub open spec fn output_own_amount(value: OutputValue) -> int {
    match value {
        OutputValue::Coin(amt) => amt@,
        OutputValue::TokenTransfer(_, amt) => amt@,
        OutputValue::TokenIssuance(amt) => amt@,
    }
}

/// The total a list of outputs pays into an asset.
pub open spec fn spec_outputs_asset_total(outputs: Seq<TxOutput>, txid: Id, a: CoinOrTokenId) -> int
    decreases outputs.len(),
{
    if outputs.len() == 0 {
        0
    } else {
        spec_outputs_asset_total(outputs.drop_last(), txid, a)
            + output_asset_amount(outputs.last().value, txid, a)
    }
}

/// Totals are sums of amounts, hence never negative.
pub proof fn lemma_inputs_total_nonneg(u: Map<u128, Utxo>, inputs: Seq<TxInput>, a: CoinOrTokenId)
    ensures
        spec_inputs_asset_total(u, inputs, a) >= 0,
    decreases inputs.len(),
{
    if inputs.len() > 0 {
        lemma_inputs_total_nonneg(u, inputs.drop_last(), a);
    }
}

pub proof fn lemma_outputs_total_nonneg(outputs: Seq<TxOutput>, txid: Id, a: CoinOrTokenId)
    ensures
        spec_outputs_asset_total(outputs, txid, a) >= 0,
    decreases outputs.len(),
{
    if outputs.len() > 0 {
        lemma_outputs_total_nonneg(outputs.drop_last(), txid, a);
    }
}

/// The asset a totals-map key stands for.
pub open spec fn asset_of_key(k: u128) -> CoinOrTokenId {
    if k == 0 {
        CoinOrTokenId::Coin
    } else {
        CoinOrTokenId::TokenId(Id { value: (k - ASSET_TOKEN_MULTIPLIER) as u64 })
    }
}

/// Every key a totals fold inserts is an asset's key.
pub open spec fn asset_keyed(m: Map<u128, Amount>) -> bool {
    forall|k: u128| #[trigger] m.contains_key(k) ==> asset_of_key(k).spec_key() == k
}

/// The amount recorded for an asset in a totals map, zero if absent.
pub open spec fn asset_lookup(m: Map<u128, Amount>, a: CoinOrTokenId) -> int {
    if m.contains_key(a.spec_key()) {
        m[a.spec_key()]@
    } else {
        0
    }
}

/// A per-asset totals map: every recorded amount keyed by its asset.
pub struct AmountsMap {
    pub amounts: UMap<Amount>,
}

impl AmountsMap {
    pub open spec fn wf(self) -> bool {
        self.amounts.wf()
    }

    pub open spec fn view(self) -> Map<u128, Amount> {
        self.amounts@
    }

    pub fn new() -> (r: AmountsMap)
        ensures
            r.wf(),
            r@ =~= Map::<u128, Amount>::empty(),
    {
        AmountsMap { amounts: UMap::new() }
    }

    /// Add an amount to an asset's total; fails on overflow.
    pub fn accumulate(&mut self, asset: &CoinOrTokenId, amount: Amount) -> (r: Result<(), ()>)
        requires
            old(self).wf(),
        ensures
            final(self).wf(),
            asset_lookup(old(self)@, *asset) + amount@ <= u128::MAX ==> (
                r is Ok
                && final(self)@ == old(self)@.insert(
                    asset.spec_key(),
                    Amount { atoms: (asset_lookup(old(self)@, *asset) + amount@) as u128 },
                )
            ),
            asset_lookup(old(self)@, *asset) + amount@ > u128::MAX ==> (
                r is Err && *final(self) == *old(self)
            ),
    {
        let k = asset.key();
        let prior = match self.amounts.get(k) {
            Some(a) => *a,
            None => Amount::from_atoms(0),
        };
        match prior.add(amount) {
            Some(total) => {
                self.amounts.insert(k, total);
                Ok(())
            },
            None => Err(()),
        }
    }

    pub fn get_asset(&self, asset: &CoinOrTokenId) -> (r: Amount)
        requires
            self.wf(),
        ensures
            r@ == asset_lookup(self@, *asset),
    {
        match self.amounts.get(asset.key()) {
            Some(a) => *a,
            None => Amount::from_atoms(0),
        }
    }
}

/// The per-asset totals of a list of inputs, or the failure the
/// fold hits first: a missing outpoint, or an overflowing total.
pub open spec fn spec_inputs_amounts_go(
    m: Map<u128, Amount>,
    u: Map<u128, Utxo>,
    inputs: Seq<TxInput>,
) -> Result<Map<u128, Amount>, ConnectTransactionError>
    decreases inputs.len(),
{
    if inputs.len() == 0 {
        Ok(m)
    } else {
        let k = inputs[0].outpoint.spec_key();
        if !u.contains_key(k) {
            Err(ConnectTransactionError::MissingOutputOrSpent)
        } else {
            let asset = utxo_asset_of(u[k].output.value, inputs[0].outpoint.source);
            let amt = utxo_own_amount(u[k].output.value, inputs[0].outpoint.source);
            let prior = asset_lookup(m, asset);
            if prior + amt > u128::MAX {
                Err(ConnectTransactionError::InputAdditionError)
            } else {
                spec_inputs_amounts_go(
                    m.insert(asset.spec_key(), Amount { atoms: (prior + amt) as u128 }),
                    u,
                    inputs.drop_first(),
                )
            }
        }
    }
}

/// A successful fold keeps all its keys asset-shaped.
pub proof fn lemma_inputs_amounts_keys(
    m: Map<u128, Amount>,
    u: Map<u128, Utxo>,
    inputs: Seq<TxInput>,
)
    requires
        asset_keyed(m),
    ensures
        spec_inputs_amounts_go(m, u, inputs) matches Ok(m2) ==> asset_keyed(m2),
    decreases inputs.len(),
{
    if inputs.len() > 0 {
        let k = inputs[0].outpoint.spec_key();
        if u.contains_key(k) {
            let asset = utxo_asset_of(u[k].output.value, inputs[0].outpoint.source);
            let amt = utxo_own_amount(u[k].output.value, inputs[0].outpoint.source);
            let prior = asset_lookup(m, asset);
            if prior + amt <= u128::MAX {
                let m1 = m.insert(asset.spec_key(), Amount { atoms: (prior + amt) as u128 });
                assert(asset_keyed(m1)) by {
                    assert(asset_of_key(asset.spec_key()) == asset);
                };
                lemma_inputs_amounts_keys(m1, u, inputs.drop_first());
            }
        }
    }
}

pub proof fn lemma_outputs_amounts_keys(
    m: Map<u128, Amount>,
    outputs: Seq<TxOutput>,
    txid: Id,
)
    requires
        asset_keyed(m),
    ensures
        spec_outputs_amounts_go(m, outputs, txid) matches Ok(m2) ==> asset_keyed(m2),
    decreases outputs.len(),
{
    if outputs.len() > 0 {
        let asset = output_asset_of(outputs[0].value, txid);
        let amt = output_own_amount(outputs[0].value);
        let prior = asset_lookup(m, asset);
        if prior + amt <= u128::MAX {
            let m1 = m.insert(asset.spec_key(), Amount { atoms: (prior + amt) as u128 });
            assert(asset_keyed(m1)) by {
                assert(asset_of_key(asset.spec_key()) == asset);
            };
            lemma_outputs_amounts_keys(m1, outputs.drop_first(), txid);
        }
    }
}

/// A successful fold records exactly the per-asset totals.
pub proof fn lemma_inputs_amounts_totals(
    m: Map<u128, Amount>,
    u: Map<u128, Utxo>,
    inputs: Seq<TxInput>,
    a: CoinOrTokenId,
)
    ensures
        spec_inputs_amounts_go(m, u, inputs) matches Ok(m2)
            ==> asset_lookup(m2, a) == asset_lookup(m, a) + spec_inputs_asset_total(u, inputs, a),
    decreases inputs.len(),
{
    if inputs.len() > 0 {
        let k = inputs[0].outpoint.spec_key();
        if u.contains_key(k) {
            let asset = utxo_asset_of(u[k].output.value, inputs[0].outpoint.source);
            let amt = utxo_own_amount(u[k].output.value, inputs[0].outpoint.source);
            let prior = asset_lookup(m, asset);
            if prior + amt <= u128::MAX {
                let m1 = m.insert(asset.spec_key(), Amount { atoms: (prior + amt) as u128 });
                lemma_inputs_amounts_totals(m1, u, inputs.drop_first(), a);
                lemma_inputs_prefix_total(u, inputs, a);
                if a.spec_key() == asset.spec_key() {
                    lemma_asset_key_injective(a, asset);
                    assert(utxo_asset_amount(u[k].output.value, inputs[0].outpoint.source, a) == amt);
                } else {
                    assert(utxo_asset_amount(u[k].output.value, inputs[0].outpoint.source, a) == 0);
                }
            }
        }
    }
}

/// Splitting off the first input splits its contribution.
pub proof fn lemma_inputs_prefix_total(u: Map<u128, Utxo>, inputs: Seq<TxInput>, a: CoinOrTokenId)
    requires
        inputs.len() > 0,
    ensures
        spec_inputs_asset_total(u, inputs, a)
            == spec_inputs_asset_total(u, inputs.drop_first(), a) + {
                let k = inputs[0].outpoint.spec_key();
                if u.contains_key(k) {
                    utxo_asset_amount(u[k].output.value, inputs[0].outpoint.source, a)
                } else {
                    0
                }
            },
    decreases inputs.len(),
{
    if inputs.len() == 1 {
        assert(inputs.drop_first() =~= Seq::<TxInput>::empty());
        assert(inputs.drop_last() =~= Seq::<TxInput>::empty());
    } else {
        assert(inputs.drop_last()[0] == inputs[0]);
        lemma_inputs_prefix_total(u, inputs.drop_last(), a);
        assert(inputs.drop_last().drop_first() =~= inputs.drop_first().drop_last());
        assert(inputs.drop_first().last() == inputs.last());
    }
}

/// The per-asset totals of a list of outputs, or the overflow the
/// fold hits first.
pub open spec fn spec_outputs_amounts_go(
    m: Map<u128, Amount>,
    outputs: Seq<TxOutput>,
    txid: Id,
) -> Result<Map<u128, Amount>, ConnectTransactionError>
    decreases outputs.len(),
{
    if outputs.len() == 0 {
        Ok(m)
    } else {
        let asset = output_asset_of(outputs[0].value, txid);
        let amt = output_own_amount(outputs[0].value);
        let prior = asset_lookup(m, asset);
        if prior + amt > u128::MAX {
            Err(ConnectTransactionError::OutputAdditionError)
        } else {
            spec_outputs_amounts_go(
                m.insert(asset.spec_key(), Amount { atoms: (prior + amt) as u128 }),
                outputs.drop_first(),
                txid,
            )
        }
    }
}

pub proof fn lemma_outputs_prefix_total(outputs: Seq<TxOutput>, txid: Id, a: CoinOrTokenId)
    requires
        outputs.len() > 0,
    ensures
        spec_outputs_asset_total(outputs, txid, a)
            == spec_outputs_asset_total(outputs.drop_first(), txid, a)
                + output_asset_amount(outputs[0].value, txid, a),
    decreases outputs.len(),
{
    if outputs.len() == 1 {
        assert(outputs.drop_first() =~= Seq::<TxOutput>::empty());
        assert(outputs.drop_last() =~= Seq::<TxOutput>::empty());
    } else {
        assert(outputs.drop_last()[0] == outputs[0]);
        lemma_outputs_prefix_total(outputs.drop_last(), txid, a);
        assert(outputs.drop_last().drop_first() =~= outputs.drop_first().drop_last());
        assert(outputs.drop_first().last() == outputs.last());
    }
}

pub proof fn lemma_outputs_amounts_totals(
    m: Map<u128, Amount>,
    outputs: Seq<TxOutput>,
    txid: Id,
    a: CoinOrTokenId,
)
    ensures
        spec_outputs_amounts_go(m, outputs, txid) matches Ok(m2)
            ==> asset_lookup(m2, a) == asset_lookup(m, a) + spec_outputs_asset_total(outputs, txid, a),
    decreases outputs.len(),
{
    if outputs.len() > 0 {
        let asset = output_asset_of(outputs[0].value, txid);
        let amt = output_own_amount(outputs[0].value);
        let prior = asset_lookup(m, asset);
        if prior + amt <= u128::MAX {
            let m1 = m.insert(asset.spec_key(), Amount { atoms: (prior + amt) as u128 });
            lemma_outputs_amounts_totals(m1, outputs.drop_first(), txid, a);
            lemma_outputs_prefix_total(outputs, txid, a);
            if a.spec_key() == asset.spec_key() {
                lemma_asset_key_injective(a, asset);
                assert(output_asset_amount(outputs[0].value, txid, a) == amt);
            } else {
                assert(output_asset_amount(outputs[0].value, txid, a) == 0);
            }
        }
    }
}

/// A reference to an operation in a block that spends inputs or
/// creates outputs: one of its transactions, or its reward.
#[derive(Debug, Clone, Copy)]
pub enum BlockTransactableRef<'a> {
    Transaction(&'a Block, usize),
    BlockReward(&'a Block),
}

/// The same, carrying the fresh transaction-index record to store
/// when index maintenance is enabled.
#[derive(Debug)]
pub enum BlockTransactableWithIndexRef<'a> {
    Transaction(&'a Block, usize, Option<TxMainChainIndex>),
    BlockReward(&'a Block, Option<TxMainChainIndex>),
}

impl<'a> BlockTransactableWithIndexRef<'a> {
    pub fn without_tx_index(&self) -> (r: BlockTransactableRef<'a>)
        ensures
            r matches BlockTransactableRef::Transaction(b, n)
                ==> (self matches BlockTransactableWithIndexRef::Transaction(b2, n2, _) && b == b2 && n == n2),
            r matches BlockTransactableRef::BlockReward(b)
                ==> (self matches BlockTransactableWithIndexRef::BlockReward(b2, _) && b == b2),
    {
        match self {
            BlockTransactableWithIndexRef::Transaction(block, index, _) => {
                BlockTransactableRef::Transaction(block, *index)
            },
            BlockTransactableWithIndexRef::BlockReward(block, _) => {
                BlockTransactableRef::BlockReward(block)
            },
        }
    }

    pub fn take_tx_index(self) -> (r: Option<TxMainChainIndex>)
        ensures
            r == (match self {
                BlockTransactableWithIndexRef::Transaction(_, _, idx) => idx,
                BlockTransactableWithIndexRef::BlockReward(_, idx) => idx,
            }),
    {
        match self {
            BlockTransactableWithIndexRef::Transaction(_, _, idx) => idx,
            BlockTransactableWithIndexRef::BlockReward(_, idx) => idx,
        }
    }
}

/// Where a connected transaction came from: a chain block or the
/// mempool.
#[derive(Debug, Clone, Copy, PartialEq, Eq, Structural, PartialOrd, Ord)]
pub enum TransactionSource {
    Chain(Id),
    Mempool,
}

pub const MEMPOOL_SOURCE_KEY: u128 = 0x20000000000000000;

impl TransactionSource {
    /// The key this source's undo data is kept under; injective.
    pub open spec fn spec_key(self) -> u128 {
        match self {
            TransactionSource::Chain(id) => id.value as u128,
            TransactionSource::Mempool => MEMPOOL_SOURCE_KEY,
        }
    }

    pub fn key(&self) -> (r: u128)
        ensures
            r == self.spec_key(),
    {
        match self {
            TransactionSource::Chain(id) => id.value as u128,
            TransactionSource::Mempool => MEMPOOL_SOURCE_KEY,
        }
    }
}

/// The source of a transaction being connected: the block index of
/// the block carrying it, or the mempool on top of the current best.
#[derive(Debug, Clone, Copy)]
pub enum TransactionSourceForConnect<'a> {
    Chain { new_block_index: &'a BlockIndex },
    Mempool { current_best: &'a BlockIndex },
}

impl<'a> TransactionSourceForConnect<'a> {
    /// The height the transaction lands at: the connected block's,
    /// or the next height above the mempool's best.
    pub open spec fn spec_expected_height(self) -> int {
        match self {
            TransactionSourceForConnect::Chain { new_block_index } => new_block_index.height.val as int,
            TransactionSourceForConnect::Mempool { current_best } => current_best.height.val + 1,
        }
    }

    pub fn expected_block_height(&self) -> (r: BlockHeight)
        requires
            self matches TransactionSourceForConnect::Mempool { current_best }
                ==> current_best.height.val < u64::MAX,
        ensures
            r.val == self.spec_expected_height(),
    {
        match self {
            TransactionSourceForConnect::Chain { new_block_index } => new_block_index.block_height(),
            TransactionSourceForConnect::Mempool { current_best } => current_best.block_height().next_height(),
        }
    }

    pub fn chain_block_index(&self) -> (r: Option<&'a BlockIndex>)
        ensures
            r == (match *self {
                TransactionSourceForConnect::Chain { new_block_index } => Some(new_block_index),
                TransactionSourceForConnect::Mempool { .. } => None::<&'a BlockIndex>,
            }),
    {
        match self {
            TransactionSourceForConnect::Chain { new_block_index } => Some(new_block_index),
            TransactionSourceForConnect::Mempool { .. } => None,
        }
    }

    pub fn to_source(&self) -> (r: TransactionSource)
        ensures
            r == (match *self {
                TransactionSourceForConnect::Chain { new_block_index } => TransactionSource::Chain(
                    new_block_index.block_id,
                ),
                TransactionSourceForConnect::Mempool { .. } => TransactionSource::Mempool,
            }),
    {
        match self {
            TransactionSourceForConnect::Chain { new_block_index } => TransactionSource::Chain(
                new_block_index.block_id,
            ),
            TransactionSourceForConnect::Mempool { .. } => TransactionSource::Mempool,
        }
    }
}

/// Unspent outputs after removing what a list of inputs spends.
pub open spec fn spec_remove_inputs(u: Map<u128, Utxo>, inputs: Seq<TxInput>) -> Map<u128, Utxo>
    decreases inputs.len(),
{
    if inputs.len() == 0 {
        u
    } else {
        spec_remove_inputs(u.remove(inputs[0].outpoint.spec_key()), inputs.drop_first())
    }
}

/// Unspent outputs after adding a source's outputs from slot `base`
/// on; burned outputs are unspendable and never enter the set.
pub open spec fn spec_add_outputs_from(
    u: Map<u128, Utxo>,
    source: OutPointSourceId,
    outputs: Seq<TxOutput>,
    base: int,
    height: BlockHeight,
    is_reward: bool,
) -> Map<u128, Utxo>
    decreases outputs.len(),
{
    if outputs.len() == 0 {
        u
    } else {
        let u2 = if outputs[0].purpose is Burn {
            u
        } else {
            u.insert(
                (OutPoint { source, index: base as u32 }).spec_key(),
                Utxo { output: outputs[0], height, is_block_reward: is_reward },
            )
        };
        spec_add_outputs_from(u2, source, outputs.drop_first(), base + 1, height, is_reward)
    }
}

/// The unspent-output set after one transaction connects.
pub open spec fn spec_connect_tx_utxos(
    u: Map<u128, Utxo>,
    txid: Id,
    txv: TransactionV,
    height: BlockHeight,
) -> Map<u128, Utxo> {
    spec_add_outputs_from(
        spec_remove_inputs(u, txv.inputs),
        OutPointSourceId::Transaction(txid),
        txv.outputs,
        0,
        height,
        false,
    )
}

/// Unspent outputs after deleting a source's outputs again.
pub open spec fn spec_remove_outputs_from(
    u: Map<u128, Utxo>,
    source: OutPointSourceId,
    outputs: Seq<TxOutput>,
    base: int,
) -> Map<u128, Utxo>
    decreases outputs.len(),
{
    if outputs.len() == 0 {
        u
    } else {
        let u2 = if outputs[0].purpose is Burn {
            u
        } else {
            u.remove((OutPoint { source, index: base as u32 }).spec_key())
        };
        spec_remove_outputs_from(u2, source, outputs.drop_first(), base + 1)
    }
}

/// Unspent outputs after restoring recorded spends.
pub open spec fn spec_restore_inputs(
    u: Map<u128, Utxo>,
    outpoints: Seq<OutPoint>,
    spent: Seq<Utxo>,
) -> Map<u128, Utxo>
    decreases outpoints.len(),
{
    if outpoints.len() == 0 || spent.len() == 0 {
        u
    } else {
        spec_restore_inputs(
            u.insert(outpoints[0].spec_key(), spent[0]),
            outpoints.drop_first(),
            spent.drop_first(),
        )
    }
}

/// The unspent-output set after one transaction disconnects: its
/// outputs vanish, what it spent comes back.
pub open spec fn spec_disconnect_tx_utxos(
    u: Map<u128, Utxo>,
    txid: Id,
    txv: TransactionV,
    undo: crate::utxo::TxUndoV,
) -> Map<u128, Utxo> {
    spec_restore_inputs(
        spec_remove_outputs_from(u, OutPointSourceId::Transaction(txid), txv.outputs, 0),
        undo.spent_outpoints,
        undo.spent,
    )
}

/// The change a verifier accumulated, ready to flush as one unit.
pub struct TransactionVerifierDelta {
    pub tx_index_enabled: bool,
    pub tx_index_cache: ConsumedCachedInputs,
    pub utxo_cache: UMap<Option<Utxo>>,
    pub utxo_block_undo: UMap<BlockUndo>,
    pub accounting_delta: crate::accounting::PoSAccountingDeltaData,
    pub accounting_delta_undo: UMap<crate::accounting::AccountingBlockUndo>,
    pub accounting_block_deltas: UMap<crate::accounting::PoSAccountingDeltaData>,
}

/// The tool that verifies transactions and caches their effects: an
/// in-memory delta over the storage views, flushable as one unit.
pub struct TransactionVerifier {
    pub best_block: Id,
    pub tx_index_enabled: bool,
    pub tx_index_cache: CachedInputs,
    pub utxo_cache: UMap<Option<Utxo>>,
    pub utxo_block_undo: UMap<BlockUndo>,
    pub accounting_delta: crate::accounting::PoSAccountingDeltaData,
    pub accounting_block_undo: UMap<crate::accounting::AccountingBlockUndo>,
    pub accounting_block_deltas: UMap<crate::accounting::PoSAccountingDeltaData>,
}

impl TransactionVerifier {
    pub open spec fn wf(self) -> bool {
        &&& self.tx_index_cache.wf()
        &&& self.utxo_cache.wf()
        &&& self.utxo_block_undo.wf()
        &&& (forall|i: int| 0 <= i < self.utxo_block_undo.seq().len()
            ==> (#[trigger] self.utxo_block_undo.seq()[i].1).wf())
        &&& self.accounting_delta.wf()
        &&& self.accounting_block_undo.wf()
        &&& (forall|i: int| 0 <= i < self.accounting_block_undo.seq().len()
            ==> (#[trigger] self.accounting_block_undo.seq()[i].1).wf())
        &&& self.accounting_block_deltas.wf()
        &&& (forall|i: int| 0 <= i < self.accounting_block_deltas.seq().len()
            ==> (#[trigger] self.accounting_block_deltas.seq()[i].1).wf())
    }

    /// The unspent outputs this verifier sees over a storage base.
    pub open spec fn utxos_view(self, base: Map<u128, Utxo>) -> Map<u128, Utxo> {
        eff_map(base, self.utxo_cache@)
    }

    /// A fresh verifier over the storage's best block; with
    /// transaction-index maintenance on when asked for.
    pub fn new(storage: &StoreTx<'_>, tx_index_enabled: bool) -> (r: TransactionVerifier)
        requires
            storage.wf(),
            storage@.best is Some,
        ensures
            r.wf(),
            r.best_block == storage@.best->0,
            r.utxos_view(storage@.utxos) =~= storage@.utxos,
            r.tx_index_enabled == tx_index_enabled,
            r.tx_index_cache@ =~= Map::<u128, crate::spend_cache::OpV>::empty(),
            r.utxo_block_undo@ =~= Map::<u128, crate::utxo::BlockUndo>::empty(),
            r.accounting_delta@.created_pools =~= Map::<u128, crate::output::StakePoolData>::empty(),
            r.accounting_delta@.balance_additions =~= Map::<u128, Amount>::empty(),
    {
        let best_block = match storage.get_best_block_id() {
            Some(id) => id,
            None => Id::new(0),
        };
        TransactionVerifier {
            best_block,
            tx_index_enabled,
            tx_index_cache: CachedInputs::new(),
            utxo_cache: UMap::new(),
            utxo_block_undo: UMap::new(),
            accounting_delta: crate::accounting::PoSAccountingDeltaData::new(),
            accounting_block_undo: UMap::new(),
            accounting_block_deltas: UMap::new(),
        }
    }

    /// A speculative child layered on this verifier's state: it sees
    /// the same ledger but records its own, initially empty, undo.
    pub fn derive_child(&self) -> (r: TransactionVerifier)
        requires
            self.wf(),
        ensures
            r.wf(),
            r.best_block == self.best_block,
            r.utxo_cache@ == self.utxo_cache@,
            r.accounting_delta@ == self.accounting_delta@,
            r.utxo_block_undo@ =~= Map::<u128, crate::utxo::BlockUndo>::empty(),
            r.tx_index_cache@ =~= Map::<u128, crate::spend_cache::OpV>::empty(),
            r.accounting_block_undo@ =~= Map::<u128, crate::accounting::AccountingBlockUndo>::empty(),
            r.accounting_block_deltas@ =~= Map::<u128, crate::accounting::PoSAccountingDeltaData>::empty(),
            r.tx_index_enabled == self.tx_index_enabled,
    {
        TransactionVerifier {
            best_block: self.best_block,
            tx_index_enabled: self.tx_index_enabled,
            tx_index_cache: CachedInputs::new(),
            utxo_cache: self.utxo_cache.duplicate(),
            utxo_block_undo: UMap::new(),
            accounting_delta: self.accounting_delta.duplicate(),
            accounting_block_undo: UMap::new(),
            accounting_block_deltas: UMap::new(),
        }
    }

    pub fn set_best_block(&mut self, id: Id)
        ensures
            final(self).best_block == id,
            final(self).utxo_cache == old(self).utxo_cache,
            final(self).utxo_block_undo == old(self).utxo_block_undo,
            final(self).tx_index_cache == old(self).tx_index_cache,
            final(self).accounting_delta == old(self).accounting_delta,
            final(self).accounting_block_undo == old(self).accounting_block_undo,
            final(self).accounting_block_deltas == old(self).accounting_block_deltas,
    {
        self.best_block = id;
    }

    /// Hand the accumulated change over as one unit.
    pub fn consume(self) -> (r: Result<TransactionVerifierDelta, ConnectTransactionError>)
        requires
            self.wf(),
        ensures
            r matches Ok(d) && d.utxo_cache == self.utxo_cache
                && d.utxo_block_undo == self.utxo_block_undo
                && d.accounting_delta == self.accounting_delta
                && d.accounting_delta_undo == self.accounting_block_undo
                && d.accounting_block_deltas == self.accounting_block_deltas
                && d.tx_index_enabled == self.tx_index_enabled
                && d.tx_index_cache.data == self.tx_index_cache.inputs,
    {
        let tx_index_cache = match self.tx_index_cache.consume() {
            Ok(consumed) => consumed,
            Err(_) => {
                proof {
                    assert(false);
                }
                ConsumedCachedInputs { data: UMap::new() }
            },
        };
        Ok(TransactionVerifierDelta {
            tx_index_enabled: self.tx_index_enabled,
            tx_index_cache,
            utxo_cache: self.utxo_cache,
            utxo_block_undo: self.utxo_block_undo,
            accounting_delta: self.accounting_delta,
            accounting_delta_undo: self.accounting_block_undo,
            accounting_block_deltas: self.accounting_block_deltas,
        })
    }

    /// One unspent output as this verifier sees it.
    pub fn utxo(&self, storage: &StoreTx<'_>, outpoint: &OutPoint) -> (r: Option<Utxo>)
        requires
            self.wf(),
            storage.wf(),
        ensures
            r is Some <==> self.utxos_view(storage@.utxos).contains_key(outpoint.spec_key()),
            r matches Some(u) ==> u == self.utxos_view(storage@.utxos)[outpoint.spec_key()],
    {
        match self.utxo_cache.get(outpoint.key()) {
            Some(inner) => match inner {
                Some(u) => Some(*u),
                None => None,
            },
            None => storage.get_utxo(outpoint),
        }
    }

    /// The per-asset totals of a transaction's inputs, as this
    /// verifier sees the ledger.
    pub fn calculate_total_inputs(&self, storage: &StoreTx<'_>, inputs: &Vec<TxInput>) -> (r: Result<
        AmountsMap,
        ConnectTransactionError,
    >)
        requires
            self.wf(),
            storage.wf(),
        ensures
            ({
                let u0 = self.utxos_view(storage@.utxos);
                &&& (spec_inputs_amounts_go(Map::empty(), u0, inputs@) matches Ok(m)
                    ==> r matches Ok(am) && am.wf() && am@ == m)
                &&& (spec_inputs_amounts_go(Map::empty(), u0, inputs@) matches Err(e)
                    ==> r == Result::<AmountsMap, ConnectTransactionError>::Err(e))
            }),
    {
        let ghost u0 = self.utxos_view(storage@.utxos);
        let mut totals = AmountsMap::new();
        let n = inputs.len();
        proof {
            assert(inputs@.skip(0) =~= inputs@);
        }
        let mut i: usize = 0;
        while i < n
            invariant
                i <= n,
                n == inputs@.len(),
                self.wf(),
                storage.wf(),
                totals.wf(),
                u0 == self.utxos_view(storage@.utxos),
                spec_inputs_amounts_go(Map::empty(), u0, inputs@)
                    == spec_inputs_amounts_go(totals@, u0, inputs@.skip(i as int)),
            decreases n - i,
        {
            proof {
                assert(inputs@.skip(i as int)[0] == inputs@[i as int]);
                assert(inputs@.skip(i as int).drop_first() =~= inputs@.skip(i + 1));
            }
            let input = &inputs[i];
            let utxo = match self.utxo(storage, &input.outpoint) {
                Some(u) => u,
                None => {
                    return Err(ConnectTransactionError::MissingOutputOrSpent);
                },
            };
            let asset = asset_of_utxo(&utxo, &input.outpoint.source);
            let amount = amount_of_utxo(&utxo, &input.outpoint.source);
            match totals.accumulate(&asset, amount) {
                Ok(_) => {},
                Err(_) => {
                    return Err(ConnectTransactionError::InputAdditionError);
                },
            }
            i = i + 1;
        }
        proof {
            assert(inputs@.skip(n as int) =~= Seq::<TxInput>::empty());
        }
        Ok(totals)
    }
}

/// The asset an unspent output pays out in.
pub fn asset_of_utxo(utxo: &Utxo, source: &OutPointSourceId) -> (r: CoinOrTokenId)
    ensures
        r == utxo_asset_of(utxo.output.value, *source),
{
    match &utxo.output.value {
        OutputValue::Coin(_) => CoinOrTokenId::Coin,
        OutputValue::TokenTransfer(tid, _) => CoinOrTokenId::TokenId(*tid),
        OutputValue::TokenIssuance(_) => match source {
            OutPointSourceId::Transaction(tid) => CoinOrTokenId::TokenId(*tid),
            OutPointSourceId::BlockReward(_) => CoinOrTokenId::Coin,
        },
    }
}

/// The amount an unspent output pays out.
pub fn amount_of_utxo(utxo: &Utxo, source: &OutPointSourceId) -> (r: Amount)
    ensures
        r@ == utxo_own_amount(utxo.output.value, *source),
{
    match &utxo.output.value {
        OutputValue::Coin(amt) => *amt,
        OutputValue::TokenTransfer(_, amt) => *amt,
        OutputValue::TokenIssuance(amt) => match source {
            OutPointSourceId::Transaction(_) => *amt,
            OutPointSourceId::BlockReward(_) => Amount::from_atoms(0),
        },
    }
}

/// The per-asset totals of a list of outputs.
pub fn calculate_total_outputs(outputs: &Vec<TxOutput>, txid: Id) -> (r: Result<
    AmountsMap,
    ConnectTransactionError,
>)
    ensures
        spec_outputs_amounts_go(Map::empty(), outputs@, txid) matches Ok(m)
            ==> r matches Ok(am) && am.wf() && am@ == m,
        spec_outputs_amounts_go(Map::empty(), outputs@, txid) matches Err(e)
            ==> r == Result::<AmountsMap, ConnectTransactionError>::Err(e),
{
    let mut totals = AmountsMap::new();
    let n = outputs.len();
    proof {
        assert(outputs@.skip(0) =~= outputs@);
    }
    let mut i: usize = 0;
    while i < n
        invariant
            i <= n,
            n == outputs@.len(),
            totals.wf(),
            spec_outputs_amounts_go(Map::empty(), outputs@, txid)
                == spec_outputs_amounts_go(totals@, outputs@.skip(i as int), txid),
        decreases n - i,
    {
        proof {
            assert(outputs@.skip(i as int)[0] == outputs@[i as int]);
            assert(outputs@.skip(i as int).drop_first() =~= outputs@.skip(i + 1));
        }
        let out = &outputs[i];
        let asset = match &out.value {
            OutputValue::Coin(_) => CoinOrTokenId::Coin,
            OutputValue::TokenTransfer(tid, _) => CoinOrTokenId::TokenId(*tid),
            OutputValue::TokenIssuance(_) => CoinOrTokenId::TokenId(txid),
        };
        let amount = match &out.value {
            OutputValue::Coin(amt) => *amt,
            OutputValue::TokenTransfer(_, amt) => *amt,
            OutputValue::TokenIssuance(amt) => *amt,
        };
        match totals.accumulate(&asset, amount) {
            Ok(_) => {},
            Err(_) => {
                return Err(ConnectTransactionError::OutputAdditionError);
            },
        }
        i = i + 1;
    }
    proof {
        assert(outputs@.skip(n as int) =~= Seq::<TxOutput>::empty());
    }
    Ok(totals)
}

/// The outputs a transaction's inputs spend, in input order; only
/// meaningful when every input is present.
pub open spec fn spec_inputs_utxos(u: Map<u128, Utxo>, inputs: Seq<TxInput>) -> Seq<TxOutput> {
    Seq::new(inputs.len(), |i: int| u[inputs[i].outpoint.spec_key()].output)
}

/// Whether a time lock permits spending at this height and past
/// median time.
pub open spec fn spec_timelock_ok(utxo: Utxo, height: int, median_time_past: BlockTimestamp) -> bool {
    match utxo.output.purpose {
        OutputPurpose::LockThenTransfer(_, lock) => match lock {
            OutputTimeLock::UntilHeight(h) => h.val <= height,
            OutputTimeLock::UntilTime(t) => t.timestamp <= median_time_past.timestamp,
        },
        _ => true,
    }
}

/// Whether input `i`'s witness satisfies the destination of the
/// output it spends.
pub open spec fn spec_input_sig_ok(u: Map<u128, Utxo>, stx: SignedTransaction, i: int) -> bool {
    let utxo = u[stx.transaction.inputs@[i].outpoint.spec_key()];
    match utxo.output.purpose {
        OutputPurpose::Transfer(d) => sig_ok_for(d, stx, u, i),
        OutputPurpose::LockThenTransfer(d, _) => sig_ok_for(d, stx, u, i),
        OutputPurpose::Burn => false,
        OutputPurpose::StakePool(data) => sig_ok_for(data.decommission_key, stx, u, i),
        OutputPurpose::ProduceBlockFromStake(d, _) => sig_ok_for(d, stx, u, i),
    }
}

pub open spec fn sig_ok_for(
    d: crate::output::Destination,
    stx: SignedTransaction,
    u: Map<u128, Utxo>,
    i: int,
) -> bool {
    crate::sighash::spec_verify_signature(
        d,
        Some(1u8),
        Some(stx.transaction.flags),
        Some(stx.transaction.lock_time),
        Some(stx.transaction.inputs@),
        Some(stx.transaction.outputs@),
        Some(stx.signatures@),
        spec_inputs_utxos(u, stx.transaction.inputs@),
        i as usize,
    ) is Ok
}

/// Coins provably destroyed by a transaction's burn outputs.
pub open spec fn spec_burned_coins(outputs: Seq<TxOutput>) -> int
    decreases outputs.len(),
{
    if outputs.len() == 0 {
        0
    } else {
        spec_burned_coins(outputs.drop_last()) + {
            match (outputs.last().purpose, outputs.last().value) {
                (OutputPurpose::Burn, OutputValue::Coin(amt)) => amt@,
                _ => 0,
            }
        }
    }
}

pub open spec fn spec_has_issuance(outputs: Seq<TxOutput>) -> bool {
    exists|i: int| 0 <= i < outputs.len() && (#[trigger] outputs[i].value) is TokenIssuance
}

impl TransactionVerifier {
    /// Check that no asset pays out more than it takes in, and
    /// return the coin fee left over.
    pub fn check_transferred_amounts_and_get_fee(
        &self,
        storage: &StoreTx<'_>,
        tx: &Transaction,
    ) -> (r: Result<Fee, ConnectTransactionError>)
        requires
            self.wf(),
            storage.wf(),
        ensures
            ({
                let u0 = self.utxos_view(storage@.utxos);
                let txid = tx.spec_id();
                &&& (spec_inputs_amounts_go(Map::empty(), u0, tx.inputs@) matches Err(e)
                    ==> r == Result::<Fee, ConnectTransactionError>::Err(e))
                &&& (spec_inputs_amounts_go(Map::empty(), u0, tx.inputs@) is Ok
                    ==> (spec_outputs_amounts_go(Map::empty(), tx.outputs@, txid) matches Err(e)
                        ==> r == Result::<Fee, ConnectTransactionError>::Err(e)))
                &&& (spec_inputs_amounts_go(Map::empty(), u0, tx.inputs@) is Ok
                    && spec_outputs_amounts_go(Map::empty(), tx.outputs@, txid) is Ok
                    && (forall|a: CoinOrTokenId| #[trigger] spec_outputs_asset_total(tx.outputs@, txid, a)
                        <= spec_inputs_asset_total(u0, tx.inputs@, a))
                    ==> r is Ok)
                &&& (r matches Ok(fee) ==> {
                    &&& forall|a: CoinOrTokenId| #[trigger] spec_outputs_asset_total(tx.outputs@, txid, a)
                        <= spec_inputs_asset_total(u0, tx.inputs@, a)
                    &&& fee.0@ == spec_inputs_asset_total(u0, tx.inputs@, CoinOrTokenId::Coin)
                        - spec_outputs_asset_total(tx.outputs@, txid, CoinOrTokenId::Coin)
                })
            }),
    {
        let ghost u0 = self.utxos_view(storage@.utxos);
        let txid = tx.get_id();
        let inputs_total_map = match self.calculate_total_inputs(storage, &tx.inputs) {
            Ok(m) => m,
            Err(e) => {
                return Err(e);
            },
        };
        let outputs_total_map = match calculate_total_outputs(&tx.outputs, txid) {
            Ok(m) => m,
            Err(e) => {
                proof {
                    if spec_inputs_amounts_go(Map::empty(), u0, tx.inputs@) is Err {
                        assert(false);
                    }
                }
                return Err(e);
            },
        };
        let n = outputs_total_map.amounts.len();
        let mut i: usize = 0;
        while i < n
            invariant
                i <= n,
                self.wf(),
                storage.wf(),
                inputs_total_map.wf(),
                outputs_total_map.wf(),
                u0 == self.utxos_view(storage@.utxos),
                txid == tx.spec_id(),
                spec_inputs_amounts_go(Map::empty(), u0, tx.inputs@)
                    == Ok::<Map<u128, Amount>, ConnectTransactionError>(inputs_total_map@),
                spec_outputs_amounts_go(Map::empty(), tx.outputs@, txid)
                    == Ok::<Map<u128, Amount>, ConnectTransactionError>(outputs_total_map@),
                n == outputs_total_map.amounts.seq().len(),
                forall|j: int| 0 <= j < i ==> {
                    let e = #[trigger] outputs_total_map.amounts.seq()[j];
                    e.1@ <= if inputs_total_map@.contains_key(e.0) { inputs_total_map@[e.0]@ } else { 0 }
                },
            decreases n - i,
        {
            let entry = outputs_total_map.amounts.entry_at(i);
            let key = entry.0;
            let out_amount = entry.1;
            let in_amount = match inputs_total_map.amounts.get(key) {
                Some(a) => *a,
                None => Amount::from_atoms(0),
            };
            if out_amount.into_atoms() > in_amount.into_atoms() {
                proof {
                    // the failing entry names an asset whose outputs
                    // outweigh its inputs
                    lemma_outputs_amounts_keys(Map::empty(), tx.outputs@, txid);
                    outputs_total_map.amounts.lemma_view_facts();
                    let a = asset_of_key(key);
                    assert(outputs_total_map@.contains_key(key));
                    assert(a.spec_key() == key);
                    lemma_outputs_amounts_totals(Map::empty(), tx.outputs@, txid, a);
                    lemma_inputs_amounts_totals(Map::empty(), u0, tx.inputs@, a);
                    assert(spec_outputs_asset_total(tx.outputs@, txid, a)
                        > spec_inputs_asset_total(u0, tx.inputs@, a));
                }
                return Err(ConnectTransactionError::AttemptToPrintMoney(in_amount, out_amount));
            }
            i = i + 1;
        }
        proof {
            lemma_conservation_from_maps(inputs_total_map@, outputs_total_map.amounts, u0, tx.inputs@, tx.outputs@, txid);
        }
        let in_coin = inputs_total_map.get_asset(&CoinOrTokenId::Coin);
        let out_coin = outputs_total_map.get_asset(&CoinOrTokenId::Coin);
        proof {
            lemma_inputs_amounts_totals(Map::empty(), u0, tx.inputs@, CoinOrTokenId::Coin);
            lemma_outputs_amounts_totals(Map::empty(), tx.outputs@, txid, CoinOrTokenId::Coin);
        }
        let fee = match in_coin.sub(out_coin) {
            Some(f) => f,
            None => {
                proof {
                    assert(false);
                }
                Amount::from_atoms(0)
            },
        };
        Ok(Fee(fee))
    }
}

/// From per-entry bounds on the totals maps to conservation for
/// every asset.
pub proof fn lemma_conservation_from_maps(
    mi: Map<u128, Amount>,
    mo_map: UMap<Amount>,
    u0: Map<u128, Utxo>,
    inputs: Seq<TxInput>,
    outputs: Seq<TxOutput>,
    txid: Id,
)
    requires
        mo_map.wf(),
        spec_inputs_amounts_go(Map::empty(), u0, inputs) == Ok::<Map<u128, Amount>, ConnectTransactionError>(mi),
        spec_outputs_amounts_go(Map::empty(), outputs, txid) == Ok::<Map<u128, Amount>, ConnectTransactionError>(mo_map@),
        forall|j: int| 0 <= j < mo_map.seq().len() ==> {
            let e = #[trigger] mo_map.seq()[j];
            e.1@ <= if mi.contains_key(e.0) { mi[e.0]@ } else { 0 }
        },
    ensures
        forall|a: CoinOrTokenId| #[trigger] spec_outputs_asset_total(outputs, txid, a)
            <= spec_inputs_asset_total(u0, inputs, a),
{
    assert forall|a: CoinOrTokenId| #[trigger] spec_outputs_asset_total(outputs, txid, a)
        <= spec_inputs_asset_total(u0, inputs, a) by {
        lemma_inputs_amounts_totals(Map::empty(), u0, inputs, a);
        lemma_outputs_amounts_totals(Map::empty(), outputs, txid, a);
        lemma_inputs_total_nonneg(u0, inputs, a);
        assert(asset_lookup(Map::empty(), a) == 0);
        let mo = mo_map@;
        if mo.contains_key(a.spec_key()) {
            mo_map.lemma_view_facts();
            let j = choose|j: int| 0 <= j < mo_map.seq().len()
                && #[trigger] mo_map.seq()[j].0 == a.spec_key();
            assert(mo_map.seq()[j].1 == mo[a.spec_key()]);
        }
    }
}

impl TransactionVerifier {
    /// Spend a transaction's inputs and create its outputs in the
    /// cache; returns the undo record that reverses exactly this.
    pub fn connect_transaction_utxos(
        &mut self,
        storage: &StoreTx<'_>,
        tx: &Transaction,
        height: BlockHeight,
    ) -> (r: Result<TxUndo, ConnectTransactionError>)
        requires
            old(self).wf(),
            storage.wf(),
            forall|i: int| 0 <= i < tx.inputs@.len()
                ==> old(self).utxos_view(storage@.utxos)
                    .contains_key(#[trigger] tx.inputs@[i].outpoint.spec_key()),
            forall|a: int, b: int| 0 <= a < b < tx.inputs@.len()
                ==> #[trigger] tx.inputs@[a].outpoint != #[trigger] tx.inputs@[b].outpoint,
            tx.outputs@.len() <= u32::MAX,
        ensures
            final(self).wf(),
            r matches Ok(undo) ==> {
                let u0 = old(self).utxos_view(storage@.utxos);
                &&& final(self).utxos_view(storage@.utxos)
                    == spec_connect_tx_utxos(u0, tx.spec_id(), tx@, height)
                &&& undo@.spent_outpoints == tx.inputs@.map_values(|inp: TxInput| inp.outpoint)
                &&& undo@.spent == Seq::new(tx.inputs@.len(), |i: int| u0[tx.inputs@[i].outpoint.spec_key()])
            },
            final(self).best_block == old(self).best_block,
            final(self).tx_index_enabled == old(self).tx_index_enabled,
            final(self).tx_index_cache == old(self).tx_index_cache,
            final(self).utxo_block_undo == old(self).utxo_block_undo,
            final(self).accounting_delta == old(self).accounting_delta,
            final(self).accounting_block_undo == old(self).accounting_block_undo,
            final(self).accounting_block_deltas == old(self).accounting_block_deltas,
            r is Ok,
    {
        let ghost u0 = self.utxos_view(storage@.utxos);
        let txid = tx.get_id();
        let mut spent_outpoints: Vec<OutPoint> = Vec::new();
        let mut spent: Vec<Utxo> = Vec::new();
        let n = tx.inputs.len();
        proof {
            assert(tx.inputs@.skip(0) =~= tx.inputs@);
        }
        let mut i: usize = 0;
        while i < n
            invariant
                i <= n,
                n == tx.inputs@.len(),
                self.wf(),
                storage.wf(),
                u0 == old(self).utxos_view(storage@.utxos),
                forall|j: int| 0 <= j < tx.inputs@.len()
                    ==> u0.contains_key(#[trigger] tx.inputs@[j].outpoint.spec_key()),
                forall|a: int, b: int| 0 <= a < b < tx.inputs@.len()
                    ==> #[trigger] tx.inputs@[a].outpoint != #[trigger] tx.inputs@[b].outpoint,
                forall|j2: int| i <= j2 < tx.inputs@.len() ==> {
                    let kk = #[trigger] tx.inputs@[j2].outpoint.spec_key();
                    self.utxos_view(storage@.utxos).contains_key(kk)
                        && self.utxos_view(storage@.utxos)[kk] == u0[kk]
                },
                spec_remove_inputs(self.utxos_view(storage@.utxos), tx.inputs@.skip(i as int))
                    == spec_remove_inputs(u0, tx.inputs@),
                spent_outpoints@ =~= tx.inputs@.take(i as int).map_values(|inp: TxInput| inp.outpoint),
                spent@ =~= Seq::new(i as nat, |j: int| u0[tx.inputs@[j].outpoint.spec_key()]),
                self.best_block == old(self).best_block,
                self.tx_index_enabled == old(self).tx_index_enabled,
                self.tx_index_cache == old(self).tx_index_cache,
                self.utxo_block_undo == old(self).utxo_block_undo,
                self.accounting_delta == old(self).accounting_delta,
                self.accounting_block_undo == old(self).accounting_block_undo,
                self.accounting_block_deltas == old(self).accounting_block_deltas,
            decreases n - i,
        {
            proof {
                assert(tx.inputs@.skip(i as int)[0] == tx.inputs@[i as int]);
                assert(tx.inputs@.skip(i as int).drop_first() =~= tx.inputs@.skip(i + 1));
            }
            let input = &tx.inputs[i];
            let utxo = match self.utxo(storage, &input.outpoint) {
                Some(u) => u,
                None => {
                    proof {
                        assert(false);
                    }
                    return Err(ConnectTransactionError::MissingOutputOrSpent);
                },
            };
            proof {
                assert(utxo == u0[tx.inputs@[i as int].outpoint.spec_key()]);
            }
            let ghost view0 = self.utxos_view(storage@.utxos);
            self.utxo_cache.insert(input.outpoint.key(), None);
            proof {
                assert(self.utxos_view(storage@.utxos)
                    =~= view0.remove(tx.inputs@[i as int].outpoint.spec_key()));
                assert forall|j2: int| i + 1 <= j2 < tx.inputs@.len() implies {
                    let kk = #[trigger] tx.inputs@[j2].outpoint.spec_key();
                    self.utxos_view(storage@.utxos).contains_key(kk)
                        && self.utxos_view(storage@.utxos)[kk] == u0[kk]
                } by {
                    if tx.inputs@[j2].outpoint.spec_key() == tx.inputs@[i as int].outpoint.spec_key() {
                        crate::primitives::lemma_outpoint_key_injective(
                            tx.inputs@[j2].outpoint,
                            tx.inputs@[i as int].outpoint,
                        );
                    }
                }
            }
            spent_outpoints.push(input.outpoint);
            spent.push(utxo);
            proof {
                assert(spent_outpoints@ =~= tx.inputs@.take(i + 1).map_values(|inp: TxInput| inp.outpoint));
                assert(spent@ =~= Seq::new((i + 1) as nat, |j: int| u0[tx.inputs@[j].outpoint.spec_key()]));
            }
            i = i + 1;
        }
        proof {
            assert(tx.inputs@.skip(n as int) =~= Seq::<TxInput>::empty());
            assert(tx.inputs@.take(n as int) =~= tx.inputs@);
        }
        // add the outputs
        let m = tx.outputs.len();
        proof {
            assert(tx.outputs@.skip(0) =~= tx.outputs@);
        }
        let mut j: usize = 0;
        while j < m
            invariant
                j <= m,
                m == tx.outputs@.len(),
                m <= u32::MAX,
                self.wf(),
                storage.wf(),
                spec_add_outputs_from(
                    self.utxos_view(storage@.utxos),
                    OutPointSourceId::Transaction(txid),
                    tx.outputs@.skip(j as int),
                    j as int,
                    height,
                    false,
                ) == spec_connect_tx_utxos(u0, txid, tx@, height),
                txid == tx.spec_id(),
                self.best_block == old(self).best_block,
                self.tx_index_enabled == old(self).tx_index_enabled,
                self.tx_index_cache == old(self).tx_index_cache,
                self.utxo_block_undo == old(self).utxo_block_undo,
                self.accounting_delta == old(self).accounting_delta,
                self.accounting_block_undo == old(self).accounting_block_undo,
                self.accounting_block_deltas == old(self).accounting_block_deltas,
            decreases m - j,
        {
            proof {
                assert(tx.outputs@.skip(j as int)[0] == tx.outputs@[j as int]);
                assert(tx.outputs@.skip(j as int).drop_first() =~= tx.outputs@.skip(j + 1));
            }
            let out = &tx.outputs[j];
            let is_burn = match &out.purpose {
                OutputPurpose::Burn => true,
                _ => false,
            };
            if !is_burn {
                let outpoint = OutPoint { source: OutPointSourceId::Transaction(txid), index: j as u32 };
                let ghost view0 = self.utxos_view(storage@.utxos);
                self.utxo_cache.insert(
                    outpoint.key(),
                    Some(Utxo { output: *out, height, is_block_reward: false }),
                );
                proof {
                    assert(self.utxos_view(storage@.utxos) =~= view0.insert(
                        outpoint.spec_key(),
                        Utxo { output: tx.outputs@[j as int], height, is_block_reward: false },
                    ));
                }
            }
            j = j + 1;
        }
        proof {
            assert(tx.outputs@.skip(m as int) =~= Seq::<TxOutput>::empty());
        }
        Ok(TxUndo { spent_outpoints, spent })
    }

    /// Reverse one transaction's ledger effect: delete its outputs,
    /// restore what it spent.
    pub fn disconnect_transaction_utxos(
        &mut self,
        storage: &StoreTx<'_>,
        tx: &Transaction,
        undo: TxUndo,
    ) -> (r: Result<(), ConnectTransactionError>)
        requires
            old(self).wf(),
            storage.wf(),
            tx.outputs@.len() <= u32::MAX,
        ensures
            final(self).wf(),
            r is Ok,
            final(self).utxos_view(storage@.utxos) == spec_disconnect_tx_utxos(
                old(self).utxos_view(storage@.utxos),
                tx.spec_id(),
                tx@,
                undo@,
            ),
            final(self).best_block == old(self).best_block,
            final(self).tx_index_enabled == old(self).tx_index_enabled,
            final(self).tx_index_cache == old(self).tx_index_cache,
            final(self).utxo_block_undo == old(self).utxo_block_undo,
            final(self).accounting_delta == old(self).accounting_delta,
            final(self).accounting_block_undo == old(self).accounting_block_undo,
            final(self).accounting_block_deltas == old(self).accounting_block_deltas,
    {
        let ghost u0 = self.utxos_view(storage@.utxos);
        let txid = tx.get_id();
        let m = tx.outputs.len();
        proof {
            assert(tx.outputs@.skip(0) =~= tx.outputs@);
        }
        let mut j: usize = 0;
        while j < m
            invariant
                j <= m,
                m == tx.outputs@.len(),
                m <= u32::MAX,
                self.wf(),
                storage.wf(),
                txid == tx.spec_id(),
                spec_remove_outputs_from(
                    self.utxos_view(storage@.utxos),
                    OutPointSourceId::Transaction(txid),
                    tx.outputs@.skip(j as int),
                    j as int,
                ) == spec_remove_outputs_from(u0, OutPointSourceId::Transaction(txid), tx.outputs@, 0),
                self.best_block == old(self).best_block,
                self.tx_index_enabled == old(self).tx_index_enabled,
                self.tx_index_cache == old(self).tx_index_cache,
                self.utxo_block_undo == old(self).utxo_block_undo,
                self.accounting_delta == old(self).accounting_delta,
                self.accounting_block_undo == old(self).accounting_block_undo,
                self.accounting_block_deltas == old(self).accounting_block_deltas,
            decreases m - j,
        {
            proof {
                assert(tx.outputs@.skip(j as int)[0] == tx.outputs@[j as int]);
                assert(tx.outputs@.skip(j as int).drop_first() =~= tx.outputs@.skip(j + 1));
            }
            let out = &tx.outputs[j];
            let is_burn = match &out.purpose {
                OutputPurpose::Burn => true,
                _ => false,
            };
            if !is_burn {
                let outpoint = OutPoint { source: OutPointSourceId::Transaction(txid), index: j as u32 };
                let ghost view0 = self.utxos_view(storage@.utxos);
                self.utxo_cache.insert(outpoint.key(), None);
                proof {
                    assert(self.utxos_view(storage@.utxos) =~= view0.remove(outpoint.spec_key()));
                }
            }
            j = j + 1;
        }
        proof {
            assert(tx.outputs@.skip(m as int) =~= Seq::<TxOutput>::empty());
        }
        // restore the spent outputs
        let n = if undo.spent_outpoints.len() < undo.spent.len() {
            undo.spent_outpoints.len()
        } else {
            undo.spent.len()
        };
        let ghost mid = self.utxos_view(storage@.utxos);
        proof {
            assert(undo.spent_outpoints@.skip(0) =~= undo.spent_outpoints@);
            assert(undo.spent@.skip(0) =~= undo.spent@);
        }
        let mut i: usize = 0;
        while i < n
            invariant
                i <= n,
                n == if undo.spent_outpoints@.len() < undo.spent@.len() {
                    undo.spent_outpoints@.len()
                } else {
                    undo.spent@.len()
                },
                self.wf(),
                storage.wf(),
                spec_restore_inputs(
                    self.utxos_view(storage@.utxos),
                    undo.spent_outpoints@.skip(i as int),
                    undo.spent@.skip(i as int),
                ) == spec_restore_inputs(mid, undo.spent_outpoints@, undo.spent@),
                self.best_block == old(self).best_block,
                self.tx_index_enabled == old(self).tx_index_enabled,
                self.tx_index_cache == old(self).tx_index_cache,
                self.utxo_block_undo == old(self).utxo_block_undo,
                self.accounting_delta == old(self).accounting_delta,
                self.accounting_block_undo == old(self).accounting_block_undo,
                self.accounting_block_deltas == old(self).accounting_block_deltas,
            decreases n - i,
        {
            proof {
                assert(undo.spent_outpoints@.skip(i as int)[0] == undo.spent_outpoints@[i as int]);
                assert(undo.spent_outpoints@.skip(i as int).drop_first() =~= undo.spent_outpoints@.skip(i + 1));
                assert(undo.spent@.skip(i as int)[0] == undo.spent@[i as int]);
                assert(undo.spent@.skip(i as int).drop_first() =~= undo.spent@.skip(i + 1));
            }
            let outpoint = undo.spent_outpoints[i];
            let utxo = undo.spent[i];
            let ghost view0 = self.utxos_view(storage@.utxos);
            self.utxo_cache.insert(outpoint.key(), Some(utxo));
            proof {
                assert(self.utxos_view(storage@.utxos) =~= view0.insert(outpoint.spec_key(), utxo));
            }
            i = i + 1;
        }
        proof {
            assert(undo.spent_outpoints@.skip(n as int).len() == 0 || undo.spent@.skip(n as int).len() == 0);
            if undo.spent_outpoints@.skip(n as int).len() == 0 {
                assert(undo.spent_outpoints@.skip(n as int) =~= Seq::<OutPoint>::empty());
            } else {
                assert(undo.spent@.skip(n as int) =~= Seq::<Utxo>::empty());
            }
        }
        Ok(())
    }
}

/// A successful totals fold saw every input in the view.
pub proof fn lemma_inputs_amounts_all_present(
    m: Map<u128, Amount>,
    u: Map<u128, Utxo>,
    inputs: Seq<TxInput>,
)
    ensures
        spec_inputs_amounts_go(m, u, inputs) is Ok
            ==> forall|i: int| 0 <= i < inputs.len()
                ==> u.contains_key(#[trigger] inputs[i].outpoint.spec_key()),
    decreases inputs.len(),
{
    if inputs.len() > 0 {
        let k = inputs[0].outpoint.spec_key();
        if u.contains_key(k) {
            let asset = utxo_asset_of(u[k].output.value, inputs[0].outpoint.source);
            let amt = utxo_own_amount(u[k].output.value, inputs[0].outpoint.source);
            let prior = asset_lookup(m, asset);
            if prior + amt <= u128::MAX {
                let m1 = m.insert(asset.spec_key(), Amount { atoms: (prior + amt) as u128 });
                lemma_inputs_amounts_all_present(m1, u, inputs.drop_first());
                assert forall|i: int| 0 <= i < inputs.len()
                    && spec_inputs_amounts_go(m, u, inputs) is Ok
                    implies u.contains_key(#[trigger] inputs[i].outpoint.spec_key()) by {
                    if i > 0 {
                        assert(inputs.drop_first()[i - 1] == inputs[i]);
                    }
                }
            }
        }
    }
}

/// Whether a list of inputs names any outpoint twice.
pub fn has_duplicate_input(inputs: &Vec<TxInput>) -> (r: bool)
    ensures
        r == exists|a: int, b: int| 0 <= a < b < inputs@.len()
            && #[trigger] inputs@[a].outpoint == #[trigger] inputs@[b].outpoint,
{
    let n = inputs.len();
    let mut a: usize = 0;
    while a < n
        invariant
            a <= n,
            n == inputs@.len(),
            forall|x: int, y: int| 0 <= x < y < inputs@.len() && x < a
                ==> #[trigger] inputs@[x].outpoint != #[trigger] inputs@[y].outpoint,
        decreases n - a,
    {
        let mut b: usize = a + 1;
        while b < n
            invariant
                a < b <= n || (a + 1 == b && b > n),
                a < n,
                n == inputs@.len(),
                forall|y: int| a < y < b ==> inputs@[a as int].outpoint != #[trigger] inputs@[y].outpoint,
            decreases n - b,
        {
            if inputs[a].outpoint.eq_outpoint(&inputs[b].outpoint) {
                return true;
            }
            b = b + 1;
        }
        a = a + 1;
    }
    false
}

impl TransactionVerifier {
    /// Validate one transaction against the ledger this verifier
    /// sees and, on success, apply its effect and record its undo.
    ///
    /// A missing or doubly named input fails with a missing-output
    /// error and changes nothing. On success every asset pays out at
    /// most what it takes in, every witness satisfies the spent
    /// output's destination, every time lock has expired, and the
    /// unspent-output view moves exactly to the connected state.
    #[verifier::rlimit(100)]
    pub fn connect_transaction(
        &mut self,
        chain_config: &ChainConfig,
        storage: &StoreTx<'_>,
        tx_source: &TransactionSourceForConnect<'_>,
        tx: &SignedTransaction,
        median_time_past: &BlockTimestamp,
    ) -> (r: Result<Option<Fee>, ConnectTransactionError>)
        requires
            old(self).wf(),
            storage.wf(),
            tx_source matches TransactionSourceForConnect::Mempool { current_best }
                ==> current_best.height.val < u64::MAX,
        ensures
            final(self).wf(),
            ({
                let u0 = old(self).utxos_view(storage@.utxos);
                let txid = tx.transaction.spec_id();
                let inputs = tx.transaction.inputs@;
                let outputs = tx.transaction.outputs@;
                &&& ((exists|a: int, b: int| 0 <= a < b < inputs.len()
                        && #[trigger] inputs[a].outpoint == #[trigger] inputs[b].outpoint)
                    ==> r == Result::<Option<Fee>, ConnectTransactionError>::Err(
                        ConnectTransactionError::MissingOutputOrSpent,
                    ) && *final(self) == *old(self))
                &&& (spec_inputs_amounts_go(Map::empty(), u0, inputs) matches Err(e)
                    ==> (!(exists|a: int, b: int| 0 <= a < b < inputs.len()
                            && #[trigger] inputs[a].outpoint == #[trigger] inputs[b].outpoint)
                        ==> r == Result::<Option<Fee>, ConnectTransactionError>::Err(e)
                            && *final(self) == *old(self)))
                &&& (r matches Ok(fee_opt) ==> {
                    &&& fee_opt matches Some(fee)
                    &&& fee.0@ == spec_inputs_asset_total(u0, inputs, CoinOrTokenId::Coin)
                        - spec_outputs_asset_total(outputs, txid, CoinOrTokenId::Coin)
                    &&& forall|asset: CoinOrTokenId| #[trigger] spec_outputs_asset_total(outputs, txid, asset)
                        <= spec_inputs_asset_total(u0, inputs, asset)
                    &&& final(self).utxos_view(storage@.utxos) == spec_connect_tx_utxos(
                        u0,
                        txid,
                        tx.transaction@,
                        BlockHeight { val: tx_source.spec_expected_height() as u64 },
                    )
                    &&& ({
                        let sk = tx_source_key(*tx_source);
                        &&& final(self).utxo_block_undo@.contains_key(sk)
                        &&& final(self).utxo_block_undo@[sk]@.tx_undos.contains_key(txid.value as u128)
                        &&& final(self).utxo_block_undo@[sk]@.tx_undos[txid.value as u128]
                            == (crate::utxo::TxUndoV {
                                spent_outpoints: inputs.map_values(|inp: TxInput| inp.outpoint),
                                spent: Seq::new(inputs.len(), |i: int| u0[inputs[i].outpoint.spec_key()]),
                            })
                    })
                    &&& forall|i: int| 0 <= i < inputs.len()
                        ==> #[trigger] spec_timelock_ok(
                            u0[inputs[i].outpoint.spec_key()],
                            tx_source.spec_expected_height(),
                            *median_time_past,
                        )
                    &&& forall|i: int| 0 <= i < inputs.len() ==> #[trigger] spec_input_sig_ok(u0, *tx, i)
                    &&& (spec_has_issuance(outputs)
                        ==> spec_burned_coins(outputs) >= chain_config.token_min_issuance_fee@)
                })
                // a transaction that passes every stated check is owed
                // acceptance
                &&& ((spec_inputs_amounts_go(Map::empty(), u0, inputs) is Ok
                    && spec_outputs_amounts_go(Map::empty(), outputs, txid) is Ok
                    && (forall|asset: CoinOrTokenId| #[trigger] spec_outputs_asset_total(outputs, txid, asset)
                        <= spec_inputs_asset_total(u0, inputs, asset))
                    && !(exists|a: int, b: int| 0 <= a < b < inputs.len()
                        && #[trigger] inputs[a].outpoint == #[trigger] inputs[b].outpoint)
                    && outputs.len() <= u32::MAX
                    && (spec_has_issuance(outputs)
                        ==> spec_burned_coins(outputs) >= chain_config.token_min_issuance_fee@)
                    && (forall|i: int| 0 <= i < inputs.len()
                        ==> #[trigger] spec_timelock_ok(
                            u0[inputs[i].outpoint.spec_key()],
                            tx_source.spec_expected_height(),
                            *median_time_past,
                        ))
                    && (forall|i: int| 0 <= i < inputs.len() ==> #[trigger] spec_input_sig_ok(u0, *tx, i))
                    && (forall|j: int| 0 <= j < outputs.len() && !((#[trigger] outputs[j]).purpose is Burn)
                        ==> !u0.contains_key((OutPoint {
                            source: OutPointSourceId::Transaction(txid),
                            index: j as u32,
                        }).spec_key()))
                    && spec_pos_outputs_ok(*old(self), tx_source_key(*tx_source), tx.transaction)
                    && (old(self).tx_index_enabled
                        && (tx_source matches TransactionSourceForConnect::Chain { .. })
                        ==> (spec_precache_inputs(
                                old(self).tx_index_cache@,
                                storage@.tx_index,
                                inputs,
                            ) matches Ok(m1)
                            && crate::spend_cache::spec_spend_inputs(
                                m1,
                                storage@,
                                inputs,
                                BlockHeight { val: tx_source.spec_expected_height() as u64 },
                                chain_config.blockreward_maturity,
                                crate::index::Spender::RegularInput(txid),
                            ) is Ok)))
                    ==> r is Ok)
            }),
    {
        let ghost u0 = self.utxos_view(storage@.utxos);
        let txid = tx.transaction.get_id();
        let inputs = &tx.transaction.inputs;
        let outputs = &tx.transaction.outputs;

        // an outpoint named twice would count twice: reject it as
        // spending an already-spent output
        if has_duplicate_input(inputs) {
            return Err(ConnectTransactionError::MissingOutputOrSpent);
        }

        // money conservation per asset, and the coin fee
        let fee = match self.check_transferred_amounts_and_get_fee(storage, &tx.transaction) {
            Ok(f) => f,
            Err(e) => {
                return Err(e);
            },
        };
        proof {
            lemma_inputs_amounts_all_present(Map::empty(), u0, inputs@);
            if spec_inputs_amounts_go(Map::empty(), u0, inputs@) is Err {
                assert(false);
            }
        }
        if outputs.len() > u32::MAX as usize {
            return Err(ConnectTransactionError::OutputAdditionError);
        }

        // token issuance must burn the issuance fee
        match check_issuance_fee_burn(chain_config, &tx.transaction, txid) {
            Ok(_) => {},
            Err(e) => {
                return Err(e);
            },
        }

        let spend_height = tx_source.expected_block_height();

        // time locks and witnesses, against the outputs being spent
        let mut inputs_utxos: Vec<TxOutput> = Vec::new();
        let n = inputs.len();
        let mut i: usize = 0;
        while i < n
            invariant
                i <= n,
                n == inputs@.len(),
                self.wf(),
                storage.wf(),
                *self == *old(self),
                u0 == self.utxos_view(storage@.utxos),
                inputs@ == tx.transaction.inputs@,
                spend_height.val == tx_source.spec_expected_height(),
                spec_inputs_amounts_go(Map::empty(), u0, inputs@) is Ok,
                !(exists|a: int, b: int| 0 <= a < b < inputs@.len()
                    && #[trigger] inputs@[a].outpoint == #[trigger] inputs@[b].outpoint),
                forall|j: int| 0 <= j < inputs@.len()
                    ==> u0.contains_key(#[trigger] inputs@[j].outpoint.spec_key()),
                inputs_utxos@ =~= spec_inputs_utxos(u0, inputs@).take(i as int),
                forall|j: int| 0 <= j < i ==> #[trigger] spec_timelock_ok(
                    u0[inputs@[j].outpoint.spec_key()],
                    tx_source.spec_expected_height(),
                    *median_time_past,
                ),
            decreases n - i,
        {
            let input = &inputs[i];
            let utxo = match self.utxo(storage, &input.outpoint) {
                Some(u) => u,
                None => {
                    proof {
                        assert(false);
                    }
                    return Err(ConnectTransactionError::MissingOutputOrSpent);
                },
            };
            match &utxo.output.purpose {
                OutputPurpose::LockThenTransfer(_, lock) => {
                    match lock {
                        OutputTimeLock::UntilHeight(h) => {
                            if h.get() > spend_height.get() {
                                proof {
                                    assert(!spec_timelock_ok(
                                        u0[tx.transaction.inputs@[i as int].outpoint.spec_key()],
                                        tx_source.spec_expected_height(),
                                        *median_time_past,
                                    ));
                                }
                                return Err(ConnectTransactionError::TimeLockViolation);
                            }
                        },
                        OutputTimeLock::UntilTime(t) => {
                            if t.as_int_seconds() > median_time_past.as_int_seconds() {
                                proof {
                                    assert(!spec_timelock_ok(
                                        u0[tx.transaction.inputs@[i as int].outpoint.spec_key()],
                                        tx_source.spec_expected_height(),
                                        *median_time_past,
                                    ));
                                }
                                return Err(ConnectTransactionError::TimeLockViolation);
                            }
                        },
                    }
                },
                _ => {},
            }
            inputs_utxos.push(utxo.output);
            proof {
                assert(inputs_utxos@ =~= spec_inputs_utxos(u0, inputs@).take(i + 1));
            }
            i = i + 1;
        }
        proof {
            assert(spec_inputs_utxos(u0, inputs@).take(n as int) =~= spec_inputs_utxos(u0, inputs@));
        }
        let mut i2: usize = 0;
        while i2 < n
            invariant
                i2 <= n,
                n == inputs@.len(),
                self.wf(),
                storage.wf(),
                *self == *old(self),
                u0 == self.utxos_view(storage@.utxos),
                inputs@ == tx.transaction.inputs@,
                inputs_utxos@ == spec_inputs_utxos(u0, inputs@),
                spec_inputs_amounts_go(Map::empty(), u0, inputs@) is Ok,
                !(exists|a: int, b: int| 0 <= a < b < inputs@.len()
                    && #[trigger] inputs@[a].outpoint == #[trigger] inputs@[b].outpoint),
                forall|j: int| 0 <= j < inputs@.len()
                    ==> u0.contains_key(#[trigger] inputs@[j].outpoint.spec_key()),
                forall|j: int| 0 <= j < i2 ==> #[trigger] spec_input_sig_ok(u0, *tx, j),
            decreases n - i2,
        {
            let input = &inputs[i2];
            let utxo = match self.utxo(storage, &input.outpoint) {
                Some(u) => u,
                None => {
                    proof {
                        assert(false);
                    }
                    return Err(ConnectTransactionError::MissingOutputOrSpent);
                },
            };
            match utxo.output.destination() {
                Some(d) => {
                    match crate::sighash::verify_signature(d, tx, &inputs_utxos, i2) {
                        Ok(_) => {},
                        Err(e) => {
                            proof {
                                assert(!spec_input_sig_ok(u0, *tx, i2 as int));
                            }
                            return Err(ConnectTransactionError::SignatureVerificationFailed(e));
                        },
                    }
                },
                None => {
                    proof {
                        assert(!spec_input_sig_ok(u0, *tx, i2 as int));
                    }
                    return Err(ConnectTransactionError::AttemptToSpendBurnedAmount);
                },
            }
            i2 = i2 + 1;
        }

        // fresh outputs only: creating an existing outpoint is refused
        let m = outputs.len();
        let mut j: usize = 0;
        while j < m
            invariant
                j <= m,
                m == outputs@.len(),
                m <= u32::MAX,
                self.wf(),
                storage.wf(),
                *self == *old(self),
                u0 == self.utxos_view(storage@.utxos),
                inputs@ == tx.transaction.inputs@,
                outputs@ == tx.transaction.outputs@,
                txid == tx.transaction.spec_id(),
                spec_inputs_amounts_go(Map::empty(), u0, inputs@) is Ok,
                !(exists|a: int, b: int| 0 <= a < b < inputs@.len()
                    && #[trigger] inputs@[a].outpoint == #[trigger] inputs@[b].outpoint),
            decreases m - j,
        {
            let is_burn = match &outputs[j].purpose {
                OutputPurpose::Burn => true,
                _ => false,
            };
            if !is_burn {
                let outpoint = OutPoint { source: OutPointSourceId::Transaction(txid), index: j as u32 };
                match self.utxo(storage, &outpoint) {
                    Some(_) => {
                        proof {
                            assert(u0.contains_key((OutPoint {
                                source: OutPointSourceId::Transaction(tx.transaction.spec_id()),
                                index: j as u32,
                            }).spec_key()));
                            assert(!(tx.transaction.outputs@[j as int].purpose is Burn));
                        }
                        return Err(ConnectTransactionError::UtxoAlreadyExists);
                    },
                    None => {},
                }
            }
            j = j + 1;
        }

        // stake pools the transaction declares
        match self.connect_pos_accounting_outputs(tx_source.to_source(), &tx.transaction) {
            Ok(_) => {},
            Err(e) => {
                return Err(e);
            },
        }

        // spend the inputs, create the outputs, record the undo
        let undo = match self.connect_transaction_utxos(storage, &tx.transaction, spend_height) {
            Ok(u) => u,
            Err(e) => {
                return Err(e);
            },
        };
        let source = tx_source.to_source();
        self.store_tx_undo(&source, txid, undo);

        // keep the transaction index current for chain sources
        match tx_source {
            TransactionSourceForConnect::Chain { .. } => {
                let ghost cache0 = self.tx_index_cache;
                proof {
                    assert(cache0 == old(self).tx_index_cache);
                    assert(self.tx_index_enabled == old(self).tx_index_enabled);
                    assert(spend_height.val == tx_source.spec_expected_height());
                    assert(spend_height == (BlockHeight {
                        val: tx_source.spec_expected_height() as u64,
                    }));
                }
                match self.spend_tx_index_inputs(
                    storage,
                    chain_config,
                    inputs,
                    &spend_height,
                    Spender::RegularInput(txid),
                ) {
                    Ok(_) => {},
                    Err(e) => {
                        proof {
                            let ghost fetched = spec_precache_inputs(
                                cache0@,
                                storage@.tx_index,
                                tx.transaction.inputs@,
                            );
                            assert(fetched == spec_precache_inputs(
                                old(self).tx_index_cache@,
                                storage@.tx_index,
                                tx.transaction.inputs@,
                            ));
                            assert(old(self).tx_index_enabled);
                        }
                        return Err(ConnectTransactionError::TxIndexError(e));
                    },
                }
            },
            TransactionSourceForConnect::Mempool { .. } => {},
        }

        Ok(Some(fee))
    }
}

/// Loading the index records of a list of inputs into the cache,
/// first to last: a cached entry stays, a stored one is read in, a
/// missing one fails the load.
pub open spec fn spec_precache_inputs(
    m: Map<u128, crate::spend_cache::OpV>,
    stored: Map<u128, crate::index::TxIndexView>,
    inputs: Seq<TxInput>,
) -> Result<Map<u128, crate::spend_cache::OpV>, crate::errors::TxIndexError>
    decreases inputs.len(),
{
    if inputs.len() == 0 {
        Ok(m)
    } else {
        let k = inputs[0].outpoint.source.spec_key();
        if m.contains_key(k) {
            spec_precache_inputs(m, stored, inputs.drop_first())
        } else if stored.contains_key(k) {
            spec_precache_inputs(
                m.insert(k, crate::spend_cache::OpV::Read(stored[k])),
                stored,
                inputs.drop_first(),
            )
        } else {
            Err(crate::errors::TxIndexError::MissingOutputOrSpent)
        }
    }
}

/// Unspending one outpoint in the cached operations: the entry must
/// be cached and the output spent; the bit is cleared again.
pub open spec fn spec_unspend_one(
    m: Map<u128, crate::spend_cache::OpV>,
    outpoint: crate::primitives::OutPoint,
) -> Result<Map<u128, crate::spend_cache::OpV>, crate::errors::TxIndexError> {
    let k = outpoint.source.spec_key();
    if !m.contains_key(k) {
        Err(crate::errors::TxIndexError::PreviouslyCachedInputNotFound)
    } else {
        match m[k] {
            crate::spend_cache::OpV::Erase => Err(crate::errors::TxIndexError::PreviouslyCachedInputWasErased),
            crate::spend_cache::OpV::Write(ix) => spec_unmark_spent(m, k, ix, outpoint.index),
            crate::spend_cache::OpV::Read(ix) => spec_unmark_spent(m, k, ix, outpoint.index),
        }
    }
}

pub open spec fn spec_unmark_spent(
    m: Map<u128, crate::spend_cache::OpV>,
    k: u128,
    ix: crate::index::TxIndexView,
    index: u32,
) -> Result<Map<u128, crate::spend_cache::OpV>, crate::errors::TxIndexError> {
    if index >= ix.spent.len() {
        Err(crate::errors::TxIndexError::DoubleSpendAttempt(
            crate::index::SpendError::OutOfRange(index, ix.spent.len() as usize),
        ))
    } else {
        match ix.spent[index as int] {
            crate::index::OutputSpentState::Unspent => Err(crate::errors::TxIndexError::DoubleSpendAttempt(
                crate::index::SpendError::AlreadyUnspent,
            )),
            crate::index::OutputSpentState::SpentBy(_) => Ok(m.insert(
                k,
                crate::spend_cache::OpV::Write(crate::index::TxIndexView {
                    position: ix.position,
                    spent: ix.spent.update(index as int, crate::index::OutputSpentState::Unspent),
                }),
            )),
        }
    }
}

/// Unspending a list of inputs, first to last.
pub open spec fn spec_unspend_inputs(
    m: Map<u128, crate::spend_cache::OpV>,
    inputs: Seq<TxInput>,
) -> Result<Map<u128, crate::spend_cache::OpV>, crate::errors::TxIndexError>
    decreases inputs.len(),
{
    if inputs.len() == 0 {
        Ok(m)
    } else {
        match spec_unspend_one(m, inputs[0].outpoint) {
            Err(e) => Err(e),
            Ok(m2) => spec_unspend_inputs(m2, inputs.drop_first()),
        }
    }
}

/// The key a connection source's undo is kept under.
pub open spec fn tx_source_key(s: TransactionSourceForConnect<'_>) -> u128 {
    match s {
        TransactionSourceForConnect::Chain { new_block_index } => new_block_index.block_id.value as u128,
        TransactionSourceForConnect::Mempool { .. } => MEMPOOL_SOURCE_KEY,
    }
}

/// A transaction that issues a token must burn at least the
/// configured issuance fee in coins.
pub fn check_issuance_fee_burn(
    chain_config: &ChainConfig,
    tx: &Transaction,
    txid: Id,
) -> (r: Result<(), ConnectTransactionError>)
    ensures
        r is Ok <==> (spec_has_issuance(tx.outputs@)
            ==> spec_burned_coins(tx.outputs@) >= chain_config.token_min_issuance_fee@),
        !(spec_has_issuance(tx.outputs@)
            ==> spec_burned_coins(tx.outputs@) >= chain_config.token_min_issuance_fee@)
            ==> r == Result::<(), ConnectTransactionError>::Err(ConnectTransactionError::TokensError(
                TokensError::InsufficientTokenFees(txid),
            )),
{
    let n = tx.outputs.len();
    let mut has_issuance = false;
    let mut burned = Amount::from_atoms(0);
    let mut i: usize = 0;
    while i < n
        invariant
            i <= n,
            n == tx.outputs@.len(),
            has_issuance == spec_has_issuance(tx.outputs@.take(i as int)),
            burned@ == spec_burned_coins(tx.outputs@.take(i as int)) || burned.atoms == u128::MAX,
            burned@ <= spec_burned_coins(tx.outputs@.take(i as int)),
        decreases n - i,
    {
        proof {
            assert(tx.outputs@.take(i + 1).drop_last() =~= tx.outputs@.take(i as int));
            assert(tx.outputs@.take(i + 1).last() == tx.outputs@[i as int]);
            if spec_has_issuance(tx.outputs@.take(i as int)) {
                let w = choose|w: int| 0 <= w < i && (#[trigger] tx.outputs@.take(i as int)[w].value) is TokenIssuance;
                assert(tx.outputs@.take(i + 1)[w].value is TokenIssuance);
            }
        }
        let out = &tx.outputs[i];
        match &out.value {
            OutputValue::TokenIssuance(_) => {
                has_issuance = true;
                proof {
                    assert(tx.outputs@.take(i + 1)[i as int].value is TokenIssuance);
                }
            },
            _ => {},
        }
        let burn_coin: Option<Amount> = match (&out.purpose, &out.value) {
            (OutputPurpose::Burn, OutputValue::Coin(amt)) => Some(*amt),
            _ => None,
        };
        match burn_coin {
            Some(amt) => {
                match burned.add(amt) {
                    Some(b) => {
                        burned = b;
                    },
                    None => {
                        burned = Amount::from_atoms(u128::MAX);
                    },
                }
            },
            None => {},
        }
        proof {
            if !(tx.outputs@.take(i + 1)[i as int].value is TokenIssuance) {
                if spec_has_issuance(tx.outputs@.take(i + 1)) {
                    let w = choose|w: int| 0 <= w < i + 1
                        && (#[trigger] tx.outputs@.take(i + 1)[w].value) is TokenIssuance;
                    if w < i {
                        assert(tx.outputs@.take(i as int)[w].value is TokenIssuance);
                    }
                }
            }
        }
        i = i + 1;
    }
    proof {
        assert(tx.outputs@.take(n as int) =~= tx.outputs@);
    }
    if has_issuance {
        if burned.into_atoms() < chain_config.token_min_issuance_fee().into_atoms() {
            return Err(ConnectTransactionError::TokensError(TokensError::InsufficientTokenFees(txid)));
        }
    }
    Ok(())
}

/// The key the pool a transaction declares is kept under.
pub open spec fn spec_tx_pool_key(tx: Transaction) -> u128 {
    crate::accounting::spec_make_pool_id(tx.inputs@[0].outpoint).value as u128
}

/// When a transaction's stake-pool declarations are owed acceptance:
/// at most one pool is declared, it has a first input to derive the
/// pool id from, and that pool is new to the verifier's delta and to
/// the source's per-block delta.
pub open spec fn spec_pos_outputs_ok(v: TransactionVerifier, sk: u128, tx: Transaction) -> bool {
    &&& (forall|a: int, b: int| 0 <= a < b < tx.outputs@.len()
        ==> !((#[trigger] tx.outputs@[a].purpose) is StakePool
            && (#[trigger] tx.outputs@[b].purpose) is StakePool))
    &&& (forall|j: int| 0 <= j < tx.outputs@.len() && (#[trigger] tx.outputs@[j].purpose) is StakePool
        ==> {
        &&& tx.inputs@.len() > 0
        &&& !v.accounting_delta@.created_pools.contains_key(spec_tx_pool_key(tx))
        &&& !v.accounting_delta@.balance_additions.contains_key(spec_tx_pool_key(tx))
        &&& (v.accounting_block_deltas@.contains_key(sk)
            ==> !v.accounting_block_deltas@[sk]@.balance_additions.contains_key(spec_tx_pool_key(tx)))
    })
}


impl TransactionVerifier {
    /// Record one transaction's utxo undo under its source.
    pub fn store_tx_undo(&mut self, source: &TransactionSource, txid: Id, undo: TxUndo)
        requires
            old(self).wf(),
        ensures
            final(self).wf(),
            final(self).utxo_block_undo@.contains_key(source.spec_key()),
            final(self).utxo_block_undo@[source.spec_key()]@.tx_undos
                == (if old(self).utxo_block_undo@.contains_key(source.spec_key()) {
                    old(self).utxo_block_undo@[source.spec_key()]@.tx_undos
                } else {
                    Map::<u128, crate::utxo::TxUndoV>::empty()
                }).insert(txid.value as u128, undo@),
            final(self).best_block == old(self).best_block,
            final(self).tx_index_enabled == old(self).tx_index_enabled,
            final(self).tx_index_cache == old(self).tx_index_cache,
            final(self).utxo_cache == old(self).utxo_cache,
            final(self).accounting_delta == old(self).accounting_delta,
            final(self).accounting_block_undo == old(self).accounting_block_undo,
            final(self).accounting_block_deltas == old(self).accounting_block_deltas,
    {
        let k = source.key();
        proof {
            self.utxo_block_undo.lemma_view_facts();
        }
        let mut bu = match self.utxo_block_undo.remove(k) {
            Some(bu) => bu,
            None => BlockUndo::new(),
        };
        proof {
            if old(self).utxo_block_undo@.contains_key(k) {
                let j = choose|j: int| 0 <= j < old(self).utxo_block_undo.seq().len()
                    && #[trigger] old(self).utxo_block_undo.seq()[j].0 == k;
                assert(old(self).utxo_block_undo.seq()[j].1 == old(self).utxo_block_undo@[k]);
            }
        }
        bu.insert_tx_undo(txid, undo);
        self.utxo_block_undo.insert(k, bu);
    }

    /// Record stake pools a transaction creates, with their undo.
    #[verifier::rlimit(100)]
    pub fn connect_pos_accounting_outputs(
        &mut self,
        tx_source: TransactionSource,
        tx: &Transaction,
    ) -> (r: Result<(), ConnectTransactionError>)
        requires
            old(self).wf(),
        ensures
            final(self).wf(),
            final(self).best_block == old(self).best_block,
            final(self).tx_index_enabled == old(self).tx_index_enabled,
            final(self).tx_index_cache == old(self).tx_index_cache,
            final(self).utxo_cache == old(self).utxo_cache,
            final(self).utxo_block_undo == old(self).utxo_block_undo,
            // a conforming declaration is owed acceptance
            spec_pos_outputs_ok(*old(self), tx_source.spec_key(), *tx) ==> r is Ok,
            // the declared pool and its pledge are recorded
            r is Ok ==> forall|j: int| 0 <= j < tx.outputs@.len()
                && (#[trigger] tx.outputs@[j].purpose) is StakePool
                ==> final(self).accounting_delta@.created_pools.contains_key(spec_tx_pool_key(*tx))
                    && final(self).accounting_delta@.created_pools[spec_tx_pool_key(*tx)]
                        == tx.outputs@[j].purpose->StakePool_0,
    {
        let mut undo_ops: Vec<crate::accounting::PoSAccountingUndo> = Vec::new();
        let mut mini = crate::accounting::PoSAccountingDeltaData::new();
        let ghost sk = tx_source.spec_key();
        let ghost mut seen: Option<int> = None;
        let n = tx.outputs.len();
        let mut i: usize = 0;
        while i < n
            invariant
                i <= n,
                n == tx.outputs@.len(),
                self.wf(),
                mini.wf(),
                sk == tx_source.spec_key(),
                self.best_block == old(self).best_block,
                self.tx_index_enabled == old(self).tx_index_enabled,
                self.tx_index_cache == old(self).tx_index_cache,
                self.utxo_cache == old(self).utxo_cache,
                self.utxo_block_undo == old(self).utxo_block_undo,
                self.accounting_block_undo == old(self).accounting_block_undo,
                self.accounting_block_deltas == old(self).accounting_block_deltas,
                seen is None ==> self.accounting_delta == old(self).accounting_delta
                    && mini.created_pools@ =~= Map::<u128, crate::output::StakePoolData>::empty()
                    && mini.balance_additions@ =~= Map::<u128, Amount>::empty(),
                seen is None ==> undo_ops@.len() == 0,
                seen matches Some(js) ==> {
                    &&& 0 <= js < i
                    &&& tx.outputs@[js].purpose is StakePool
                    &&& tx.inputs@.len() > 0
                    &&& self.accounting_delta@.created_pools == old(self).accounting_delta@.created_pools
                        .insert(spec_tx_pool_key(*tx), tx.outputs@[js].purpose->StakePool_0)
                },
                forall|k: u128| #[trigger] mini.balance_additions@.contains_key(k)
                    ==> k == spec_tx_pool_key(*tx),
                forall|j: int| 0 <= j < i && (#[trigger] tx.outputs@[j].purpose) is StakePool
                    ==> seen == Some(j),
            decreases n - i,
        {
            match &tx.outputs[i].purpose {
                OutputPurpose::StakePool(data) => {
                    if tx.inputs.len() == 0 {
                        proof {
                            assert(!spec_pos_outputs_ok(*old(self), sk, *tx)) by {
                                assert(tx.outputs@[i as int].purpose is StakePool);
                            };
                        }
                        return Err(ConnectTransactionError::MissingOutputOrSpent);
                    }
                    let pool_id = crate::accounting::make_pool_id(&tx.inputs[0].outpoint);
                    match self.accounting_delta.add_pool(pool_id, *data) {
                        Ok(_) => {},
                        Err(e) => {
                            proof {
                                assert(!spec_pos_outputs_ok(*old(self), sk, *tx)) by {
                                    assert(tx.outputs@[i as int].purpose is StakePool);
                                    if seen is Some {
                                        assert(tx.outputs@[seen->0].purpose is StakePool);
                                    }
                                };
                            }
                            return Err(ConnectTransactionError::AccountingError(e));
                        },
                    }
                    match self.accounting_delta.add_balance(pool_id, data.value) {
                        Ok(_) => {},
                        Err(e) => {
                            proof {
                                assert(!spec_pos_outputs_ok(*old(self), sk, *tx)) by {
                                    assert(tx.outputs@[i as int].purpose is StakePool);
                                    if seen is Some {
                                        assert(tx.outputs@[seen->0].purpose is StakePool);
                                    }
                                };
                            }
                            return Err(ConnectTransactionError::AccountingError(e));
                        },
                    }
                    match mini.add_pool(pool_id, *data) {
                        Ok(_) => {},
                        Err(e) => {
                            proof {
                                assert(!spec_pos_outputs_ok(*old(self), sk, *tx)) by {
                                    assert(tx.outputs@[i as int].purpose is StakePool);
                                    if seen is Some {
                                        assert(tx.outputs@[seen->0].purpose is StakePool);
                                    }
                                };
                            }
                            return Err(ConnectTransactionError::AccountingError(e));
                        },
                    }
                    match mini.add_balance(pool_id, data.value) {
                        Ok(_) => {},
                        Err(e) => {
                            proof {
                                assert(false);
                            }
                            return Err(ConnectTransactionError::AccountingError(e));
                        },
                    }
                    proof {
                        seen = Some(i as int);
                    }
                    undo_ops.push(crate::accounting::PoSAccountingUndo::CreatePool {
                        pool_id,
                        pledge: data.value,
                    });
                },
                _ => {},
            }
            i = i + 1;
        }
        if undo_ops.len() > 0 {
            let txid = tx.get_id();
            let sk2 = tx_source.key();
            proof {
                self.accounting_block_undo.lemma_view_facts();
            }
            let mut bu = match self.accounting_block_undo.remove(sk2) {
                Some(bu) => bu,
                None => crate::accounting::AccountingBlockUndo::new(),
            };
            proof {
                if old(self).accounting_block_undo@.contains_key(sk2) {
                    let jj = choose|jj: int| 0 <= jj < old(self).accounting_block_undo.seq().len()
                        && #[trigger] old(self).accounting_block_undo.seq()[jj].0 == sk2;
                    assert(old(self).accounting_block_undo.seq()[jj].1
                        == old(self).accounting_block_undo@[sk2]);
                }
            }
            bu.insert_tx_undo(txid, crate::accounting::AccountingTxUndo::new(undo_ops));
            self.accounting_block_undo.insert(sk2, bu);
            proof {
                self.accounting_block_deltas.lemma_view_facts();
            }
            let mut entry = match self.accounting_block_deltas.remove(sk2) {
                Some(d) => d,
                None => crate::accounting::PoSAccountingDeltaData::new(),
            };
            proof {
                if old(self).accounting_block_deltas@.contains_key(sk2) {
                    let jj = choose|jj: int| 0 <= jj < old(self).accounting_block_deltas.seq().len()
                        && #[trigger] old(self).accounting_block_deltas.seq()[jj].0 == sk2;
                    assert(old(self).accounting_block_deltas.seq()[jj].1
                        == old(self).accounting_block_deltas@[sk2]);
                }
            }
            proof {
                mini.balance_additions.lemma_view_facts();
            }
            match entry.merge_with_delta(mini) {
                Ok(_) => {},
                Err(e) => {
                    proof {
                        assert(!spec_pos_outputs_ok(*old(self), sk, *tx)) by {
                            if spec_pos_outputs_ok(*old(self), sk, *tx) {
                                assert(tx.outputs@[seen->0].purpose is StakePool);
                                assert(forall|i2: int| 0 <= i2 < mini.balance_additions.seq().len()
                                    ==> !entry.balance_additions@.contains_key(
                                        (#[trigger] mini.balance_additions.seq()[i2]).0,
                                    ));
                            }
                        };
                    }
                    return Err(ConnectTransactionError::AccountingError(e));
                },
            }
            self.accounting_block_deltas.insert(sk2, entry);
        }
        Ok(())
    }


    /// Mark inputs spent in the transaction index, when maintenance
    /// is enabled: load the records, then flip the bitmaps.
    pub fn spend_tx_index_inputs(
        &mut self,
        storage: &StoreTx<'_>,
        chain_config: &ChainConfig,
        inputs: &Vec<TxInput>,
        spend_height: &BlockHeight,
        spender: Spender,
    ) -> (r: Result<(), crate::errors::TxIndexError>)
        requires
            old(self).wf(),
            storage.wf(),
        ensures
            final(self).wf(),
            final(self).best_block == old(self).best_block,
            final(self).tx_index_enabled == old(self).tx_index_enabled,
            final(self).utxo_cache == old(self).utxo_cache,
            final(self).utxo_block_undo == old(self).utxo_block_undo,
            final(self).accounting_delta == old(self).accounting_delta,
            final(self).accounting_block_undo == old(self).accounting_block_undo,
            final(self).accounting_block_deltas == old(self).accounting_block_deltas,
            !old(self).tx_index_enabled ==> *final(self) == *old(self) && r is Ok,
            old(self).tx_index_enabled ==> {
                let fetched = spec_precache_inputs(old(self).tx_index_cache@, storage@.tx_index, inputs@);
                &&& (fetched matches Err(e) ==> r == Result::<(), crate::errors::TxIndexError>::Err(e))
                &&& (fetched matches Ok(m1) ==> {
                    let spent = crate::spend_cache::spec_spend_inputs(
                        m1,
                        storage@,
                        inputs@,
                        *spend_height,
                        chain_config.blockreward_maturity,
                        spender,
                    );
                    &&& (spent matches Err(e2) ==> r == Result::<(), crate::errors::TxIndexError>::Err(e2))
                    &&& (spent matches Ok(m2) ==> r is Ok && final(self).tx_index_cache@ == m2)
                })
            },
    {
        if !self.tx_index_enabled {
            return Ok(());
        }
        let n = inputs.len();
        proof {
            assert(inputs@.skip(0) =~= inputs@);
        }
        let mut i: usize = 0;
        while i < n
            invariant
                i <= n,
                n == inputs@.len(),
                self.wf(),
                storage.wf(),
                self.tx_index_enabled,
                spec_precache_inputs(old(self).tx_index_cache@, storage@.tx_index, inputs@)
                    == spec_precache_inputs(self.tx_index_cache@, storage@.tx_index, inputs@.skip(i as int)),
                self.best_block == old(self).best_block,
                self.tx_index_enabled == old(self).tx_index_enabled,
                self.utxo_cache == old(self).utxo_cache,
                self.utxo_block_undo == old(self).utxo_block_undo,
                self.accounting_delta == old(self).accounting_delta,
                self.accounting_block_undo == old(self).accounting_block_undo,
                self.accounting_block_deltas == old(self).accounting_block_deltas,
            decreases n - i,
        {
            proof {
                assert(inputs@.skip(i as int)[0] == inputs@[i as int]);
                assert(inputs@.skip(i as int).drop_first() =~= inputs@.skip(i + 1));
            }
            match self.tx_index_cache.fetch_and_cache(storage, &inputs[i].outpoint) {
                Ok(_) => {},
                Err(e) => {
                    return Err(e);
                },
            }
            i = i + 1;
        }
        proof {
            assert(inputs@.skip(n as int) =~= Seq::<TxInput>::empty());
        }
        self.tx_index_cache.apply_spend(
            storage,
            inputs,
            spend_height,
            chain_config.blockreward_maturity(),
            spender,
        )
    }

    /// Unmark inputs in the transaction index, when maintenance is
    /// enabled.
    pub fn unspend_tx_index_inputs(
        &mut self,
        storage: &StoreTx<'_>,
        inputs: &Vec<TxInput>,
    ) -> (r: Result<(), crate::errors::TxIndexError>)
        requires
            old(self).wf(),
            storage.wf(),
        ensures
            final(self).wf(),
            final(self).best_block == old(self).best_block,
            final(self).tx_index_enabled == old(self).tx_index_enabled,
            final(self).utxo_cache == old(self).utxo_cache,
            final(self).utxo_block_undo == old(self).utxo_block_undo,
            final(self).accounting_delta == old(self).accounting_delta,
            final(self).accounting_block_undo == old(self).accounting_block_undo,
            final(self).accounting_block_deltas == old(self).accounting_block_deltas,
            !old(self).tx_index_enabled ==> *final(self) == *old(self) && r is Ok,
            old(self).tx_index_enabled ==> {
                let fetched = spec_precache_inputs(old(self).tx_index_cache@, storage@.tx_index, inputs@);
                &&& (fetched matches Err(e) ==> r == Result::<(), crate::errors::TxIndexError>::Err(e))
                &&& (fetched matches Ok(m1) ==> {
                    let unspent = spec_unspend_inputs(m1, inputs@);
                    &&& (unspent matches Err(e2) ==> r == Result::<(), crate::errors::TxIndexError>::Err(e2))
                    &&& (unspent matches Ok(m2) ==> r is Ok && final(self).tx_index_cache@ == m2)
                })
            },
    {
        if !self.tx_index_enabled {
            return Ok(());
        }
        let n = inputs.len();
        proof {
            assert(inputs@.skip(0) =~= inputs@);
        }
        let mut i: usize = 0;
        while i < n
            invariant
                i <= n,
                n == inputs@.len(),
                self.wf(),
                storage.wf(),
                self.tx_index_enabled,
                spec_precache_inputs(old(self).tx_index_cache@, storage@.tx_index, inputs@)
                    == spec_precache_inputs(self.tx_index_cache@, storage@.tx_index, inputs@.skip(i as int)),
                self.best_block == old(self).best_block,
                self.tx_index_enabled == old(self).tx_index_enabled,
                self.utxo_cache == old(self).utxo_cache,
                self.utxo_block_undo == old(self).utxo_block_undo,
                self.accounting_delta == old(self).accounting_delta,
                self.accounting_block_undo == old(self).accounting_block_undo,
                self.accounting_block_deltas == old(self).accounting_block_deltas,
            decreases n - i,
        {
            proof {
                assert(inputs@.skip(i as int)[0] == inputs@[i as int]);
                assert(inputs@.skip(i as int).drop_first() =~= inputs@.skip(i + 1));
            }
            match self.tx_index_cache.fetch_and_cache(storage, &inputs[i].outpoint) {
                Ok(_) => {},
                Err(e) => {
                    return Err(e);
                },
            }
            i = i + 1;
        }
        proof {
            assert(inputs@.skip(n as int) =~= Seq::<TxInput>::empty());
        }
        let ghost m1 = self.tx_index_cache@;
        let mut j: usize = 0;
        while j < n
            invariant
                j <= n,
                n == inputs@.len(),
                self.wf(),
                storage.wf(),
                self.tx_index_enabled,
                spec_precache_inputs(old(self).tx_index_cache@, storage@.tx_index, inputs@)
                    == Ok::<Map<u128, crate::spend_cache::OpV>, crate::errors::TxIndexError>(m1),
                spec_unspend_inputs(m1, inputs@)
                    == spec_unspend_inputs(self.tx_index_cache@, inputs@.skip(j as int)),
                self.best_block == old(self).best_block,
                self.tx_index_enabled == old(self).tx_index_enabled,
                self.utxo_cache == old(self).utxo_cache,
                self.utxo_block_undo == old(self).utxo_block_undo,
                self.accounting_delta == old(self).accounting_delta,
                self.accounting_block_undo == old(self).accounting_block_undo,
                self.accounting_block_deltas == old(self).accounting_block_deltas,
            decreases n - j,
        {
            proof {
                assert(inputs@.skip(j as int)[0] == inputs@[j as int]);
                assert(inputs@.skip(j as int).drop_first() =~= inputs@.skip(j + 1));
                self.tx_index_cache.inputs.lemma_view_facts();
            }
            let outpoint = &inputs[j].outpoint;
            let k = outpoint.source.key();
            let ghost m_before = self.tx_index_cache@;
            let op = match self.tx_index_cache.inputs.remove(k) {
                Some(op) => op,
                None => {
                    proof {
                        assert(!m_before.contains_key(k));
                        assert(spec_unspend_one(m_before, inputs@[j as int].outpoint)
                            == Err::<Map<u128, crate::spend_cache::OpV>, crate::errors::TxIndexError>(
                                crate::errors::TxIndexError::PreviouslyCachedInputNotFound,
                            ));
                    }
                    return Err(crate::errors::TxIndexError::PreviouslyCachedInputNotFound);
                },
            };
            proof {
                assert(op@ == m_before[k]);
            }
            let mut ix = match op {
                crate::spend_cache::CachedInputsOperation::Write(ix) => ix,
                crate::spend_cache::CachedInputsOperation::Read(ix) => ix,
                crate::spend_cache::CachedInputsOperation::Erase => {
                    proof {
                        assert(spec_unspend_one(m_before, inputs@[j as int].outpoint)
                            == Err::<Map<u128, crate::spend_cache::OpV>, crate::errors::TxIndexError>(
                                crate::errors::TxIndexError::PreviouslyCachedInputWasErased,
                            ));
                    }
                    return Err(crate::errors::TxIndexError::PreviouslyCachedInputWasErased);
                },
            };
            match ix.unspend(outpoint.index) {
                Ok(_) => {},
                Err(e) => {
                    proof {
                        assert(spec_unspend_one(m_before, inputs@[j as int].outpoint)
                            == Err::<Map<u128, crate::spend_cache::OpV>, crate::errors::TxIndexError>(
                                crate::errors::TxIndexError::DoubleSpendAttempt(e),
                            ));
                    }
                    return Err(crate::errors::TxIndexError::DoubleSpendAttempt(e));
                },
            }
            self.tx_index_cache.inputs.insert(k, crate::spend_cache::CachedInputsOperation::Write(ix));
            proof {
                assert(self.tx_index_cache@ =~= m_before.insert(k, crate::spend_cache::OpV::Write(ix@)));
                assert(spec_unspend_one(m_before, inputs@[j as int].outpoint)
                    == Ok::<Map<u128, crate::spend_cache::OpV>, crate::errors::TxIndexError>(self.tx_index_cache@));
            }
            j = j + 1;
        }
        proof {
            assert(inputs@.skip(n as int) =~= Seq::<TxInput>::empty());
        }
        Ok(())
    }
}

/// The unspent-output set after a block's reward connects.
pub open spec fn spec_connect_reward_utxos(
    u: Map<u128, Utxo>,
    block_id: Id,
    inputs: Seq<TxInput>,
    outputs: Seq<TxOutput>,
    height: BlockHeight,
) -> Map<u128, Utxo> {
    spec_add_outputs_from(
        spec_remove_inputs(u, inputs),
        OutPointSourceId::BlockReward(block_id),
        outputs,
        0,
        height,
        true,
    )
}

impl TransactionVerifier {
    /// Check a block's reward payout: no tokens may be minted there,
    /// and its coin outputs must stay within its coin inputs plus the
    /// subsidy plus the block's transaction fees. For proof-of-stake
    /// blocks the kernel and reward must name the block's pool.
    pub fn check_block_reward(
        &self,
        storage: &StoreTx<'_>,
        block: &Block,
        total_fees: Fee,
        block_subsidy_at_height: Subsidy,
    ) -> (r: Result<(), ConnectTransactionError>)
        requires
            self.wf(),
            storage.wf(),
        ensures
            ({
                let u0 = self.utxos_view(storage@.utxos);
                let reward_inputs = spec_reward_inputs(*block);
                let reward_outputs = spec_reward_outputs(*block);
                r is Ok ==> {
                    &&& forall|i: int| 0 <= i < reward_outputs.len()
                        ==> (#[trigger] reward_outputs[i].value) is Coin
                    &&& spec_outputs_asset_total(reward_outputs, Id { value: 0 }, CoinOrTokenId::Coin)
                        <= spec_inputs_asset_total(u0, reward_inputs, CoinOrTokenId::Coin)
                            + block_subsidy_at_height.0@ + total_fees.0@
                }
            }),
    {
        let ghost u0 = self.utxos_view(storage@.utxos);
        match self.check_stake_outputs_in_reward(storage, block) {
            Ok(_) => {},
            Err(e) => {
                return Err(e);
            },
        }
        let reward = block.block_reward_transactable();
        let inputs_total = match reward.inputs {
            Some(ins) => {
                let m = match self.calculate_total_inputs(storage, ins) {
                    Ok(m) => m,
                    Err(e) => {
                        return Err(e);
                    },
                };
                proof {
                    lemma_inputs_amounts_totals(Map::empty(), u0, ins@, CoinOrTokenId::Coin);
                }
                m.get_asset(&CoinOrTokenId::Coin)
            },
            None => Amount::from_atoms(0),
        };
        let outputs_total = match reward.outputs {
            Some(outs) => {
                let mut total = Amount::from_atoms(0);
                let n = outs.len();
                let mut i: usize = 0;
                while i < n
                    invariant
                        i <= n,
                        n == outs@.len(),
                        forall|j: int| 0 <= j < i ==> (#[trigger] outs@[j].value) is Coin,
                        total@ == spec_outputs_asset_total(outs@.take(i as int), Id { value: 0 }, CoinOrTokenId::Coin),
                    decreases n - i,
                {
                    proof {
                        assert(outs@.take(i + 1).drop_last() =~= outs@.take(i as int));
                        assert(outs@.take(i + 1).last() == outs@[i as int]);
                    }
                    match &outs[i].value {
                        OutputValue::Coin(amt) => {
                            match total.add(*amt) {
                                Some(t) => {
                                    total = t;
                                },
                                None => {
                                    return Err(ConnectTransactionError::RewardAdditionError(block.get_id()));
                                },
                            }
                        },
                        _ => {
                            return Err(ConnectTransactionError::TokensError(TokensError::TokensInBlockReward));
                        },
                    }
                    i = i + 1;
                }
                proof {
                    assert(outs@.take(n as int) =~= outs@);
                }
                total
            },
            None => Amount::from_atoms(0),
        };
        let max_allowed = match inputs_total.add(block_subsidy_at_height.0) {
            Some(s) => match s.add(total_fees.0) {
                Some(s2) => s2,
                None => {
                    return Err(ConnectTransactionError::RewardAdditionError(block.get_id()));
                },
            },
            None => {
                return Err(ConnectTransactionError::RewardAdditionError(block.get_id()));
            },
        };
        if outputs_total.into_atoms() > max_allowed.into_atoms() {
            return Err(ConnectTransactionError::AttemptToPrintMoney(inputs_total, outputs_total));
        }
        proof {
            if spec_reward_inputs(*block).len() > 0 {
            }
        }
        Ok(())
    }

    /// For a proof-of-stake block: the reward must be exactly one
    /// restaking output of the block's own pool, and the kernel must
    /// spend an output of that pool.
    pub fn check_stake_outputs_in_reward(&self, storage: &StoreTx<'_>, block: &Block) -> (r: Result<
        (),
        ConnectTransactionError,
    >)
        requires
            self.wf(),
            storage.wf(),
    {
        match block.consensus_data() {
            ConsensusData::NoConsensus => Ok(()),
            ConsensusData::PoW(_) => Ok(()),
            ConsensusData::PoS(pos) => {
                let block_id = block.get_id();
                if pos.kernel_inputs.len() == 0 {
                    return Err(ConnectTransactionError::SpendStakeError);
                }
                let kernel_utxo = match self.utxo(storage, &pos.kernel_inputs[0].outpoint) {
                    Some(u) => u,
                    None => {
                        return Err(ConnectTransactionError::MissingOutputOrSpent);
                    },
                };
                let kernel_pool = match &kernel_utxo.output.purpose {
                    OutputPurpose::StakePool(_) => None,
                    OutputPurpose::ProduceBlockFromStake(_, pool_id) => Some(*pool_id),
                    _ => {
                        return Err(ConnectTransactionError::InvalidOutputTypeInReward(block_id));
                    },
                };
                match kernel_pool {
                    Some(pid) => {
                        if pid.value != pos.stake_pool_id.value {
                            return Err(ConnectTransactionError::SpendStakeError);
                        }
                    },
                    None => {},
                }
                if pos.reward_outputs.len() != 1 {
                    return Err(ConnectTransactionError::SpendStakeError);
                }
                match &pos.reward_outputs[0].purpose {
                    OutputPurpose::ProduceBlockFromStake(_, pool_id) => {
                        if pool_id.value != pos.stake_pool_id.value {
                            return Err(ConnectTransactionError::SpendStakeError);
                        }
                        Ok(())
                    },
                    _ => Err(ConnectTransactionError::InvalidOutputTypeInReward(block_id)),
                }
            },
        }
    }

    /// Connect a block's reward: verify the kernel witnesses, spend
    /// the kernel inputs, create the reward outputs, record the undo;
    /// a proof-of-stake block also credits the subsidy to its pool.
    #[verifier::rlimit(60)]
    pub fn connect_block_reward(
        &mut self,
        chain_config: &ChainConfig,
        storage: &StoreTx<'_>,
        block_index: &BlockIndex,
        block: &Block,
    ) -> (r: Result<(), ConnectTransactionError>)
        requires
            old(self).wf(),
            storage.wf(),
        ensures
            final(self).wf(),
            r matches Ok(_) ==> final(self).utxos_view(storage@.utxos) == spec_connect_reward_utxos(
                old(self).utxos_view(storage@.utxos),
                block_index.block_id,
                spec_reward_inputs(*block),
                spec_reward_outputs(*block),
                block_index.height,
            ),
    {
        let ghost u0 = self.utxos_view(storage@.utxos);
        let block_id = *block_index.block_id();
        let reward = block.block_reward_transactable();

        // kernel inputs: verify, then spend
        let mut spent: Vec<Utxo> = Vec::new();
        match reward.inputs {
            Some(ins) => {
                if has_duplicate_input(ins) {
                    return Err(ConnectTransactionError::MissingOutputOrSpent);
                }
                // witnesses of the kernel inputs
                let mut kernel_utxos: Vec<TxOutput> = Vec::new();
                let n = ins.len();
                let mut i: usize = 0;
                while i < n
                    invariant
                        i <= n,
                        n == ins@.len(),
                        self.wf(),
                        storage.wf(),
                        *self == *old(self),
                        u0 == self.utxos_view(storage@.utxos),
                        kernel_utxos@.len() == i,
                        forall|j: int| 0 <= j < i
                            ==> u0.contains_key(#[trigger] ins@[j].outpoint.spec_key()),
                    decreases n - i,
                {
                    let utxo = match self.utxo(storage, &ins[i].outpoint) {
                        Some(u) => u,
                        None => {
                            return Err(ConnectTransactionError::MissingOutputOrSpent);
                        },
                    };
                    kernel_utxos.push(utxo.output);
                    i = i + 1;
                }
                let mut i2: usize = 0;
                while i2 < n
                    invariant
                        i2 <= n,
                        n == ins@.len(),
                        self.wf(),
                        storage.wf(),
                        *self == *old(self),
                        u0 == self.utxos_view(storage@.utxos),
                        kernel_utxos@.len() == n,
                        forall|j: int| 0 <= j < n
                            ==> u0.contains_key(#[trigger] ins@[j].outpoint.spec_key()),
                    decreases n - i2,
                {
                    let utxo = match self.utxo(storage, &ins[i2].outpoint) {
                        Some(u) => u,
                        None => {
                            proof {
                                assert(false);
                            }
                            return Err(ConnectTransactionError::MissingOutputOrSpent);
                        },
                    };
                    match utxo.output.destination() {
                        Some(d) => {
                            match crate::sighash::verify_signature(d, &reward, &kernel_utxos, i2) {
                                Ok(_) => {},
                                Err(e) => {
                                    return Err(ConnectTransactionError::SignatureVerificationFailed(e));
                                },
                            }
                        },
                        None => {
                            return Err(ConnectTransactionError::AttemptToSpendBurnedAmount);
                        },
                    }
                    i2 = i2 + 1;
                }
                // spend them
                proof {
                    assert(ins@.skip(0) =~= ins@);
                }
                let mut i3: usize = 0;
                while i3 < n
                    invariant
                        i3 <= n,
                        n == ins@.len(),
                        self.wf(),
                        storage.wf(),
                        u0 == old(self).utxos_view(storage@.utxos),
                        forall|j: int| 0 <= j < n
                            ==> u0.contains_key(#[trigger] ins@[j].outpoint.spec_key()),
                        forall|a: int, b: int| 0 <= a < b < ins@.len()
                            ==> #[trigger] ins@[a].outpoint != #[trigger] ins@[b].outpoint,
                        forall|j2: int| i3 <= j2 < ins@.len() ==> {
                            let kk = #[trigger] ins@[j2].outpoint.spec_key();
                            self.utxos_view(storage@.utxos).contains_key(kk)
                                && self.utxos_view(storage@.utxos)[kk] == u0[kk]
                        },
                        spec_remove_inputs(self.utxos_view(storage@.utxos), ins@.skip(i3 as int))
                            == spec_remove_inputs(u0, ins@),
                        spent@.len() == i3,
                        self.best_block == old(self).best_block,
                        self.tx_index_enabled == old(self).tx_index_enabled,
                        self.tx_index_cache == old(self).tx_index_cache,
                        self.utxo_block_undo == old(self).utxo_block_undo,
                        self.accounting_delta == old(self).accounting_delta,
                        self.accounting_block_undo == old(self).accounting_block_undo,
                        self.accounting_block_deltas == old(self).accounting_block_deltas,
                    decreases n - i3,
                {
                    proof {
                        assert(ins@.skip(i3 as int)[0] == ins@[i3 as int]);
                        assert(ins@.skip(i3 as int).drop_first() =~= ins@.skip(i3 + 1));
                    }
                    let utxo = match self.utxo(storage, &ins[i3].outpoint) {
                        Some(u) => u,
                        None => {
                            proof {
                                assert(false);
                            }
                            return Err(ConnectTransactionError::MissingOutputOrSpent);
                        },
                    };
                    let ghost view0 = self.utxos_view(storage@.utxos);
                    self.utxo_cache.insert(ins[i3].outpoint.key(), None);
                    proof {
                        assert(self.utxos_view(storage@.utxos)
                            =~= view0.remove(ins@[i3 as int].outpoint.spec_key()));
                        assert forall|j2: int| i3 + 1 <= j2 < ins@.len() implies {
                            let kk = #[trigger] ins@[j2].outpoint.spec_key();
                            self.utxos_view(storage@.utxos).contains_key(kk)
                                && self.utxos_view(storage@.utxos)[kk] == u0[kk]
                        } by {
                            if ins@[j2].outpoint.spec_key() == ins@[i3 as int].outpoint.spec_key() {
                                crate::primitives::lemma_outpoint_key_injective(
                                    ins@[j2].outpoint,
                                    ins@[i3 as int].outpoint,
                                );
                            }
                        }
                    }
                    spent.push(utxo);
                    i3 = i3 + 1;
                }
                proof {
                    assert(ins@.skip(n as int) =~= Seq::<TxInput>::empty());
                }
            },
            None => {
                proof {
                    assert(spec_remove_inputs(u0, spec_reward_inputs(*block)) == u0);
                }
            },
        }

        // create the reward outputs
        match reward.outputs {
            Some(outs) => {
                if outs.len() > u32::MAX as usize {
                    return Err(ConnectTransactionError::OutputAdditionError);
                }
                let m = outs.len();
                proof {
                    assert(outs@.skip(0) =~= outs@);
                }
                let mut j: usize = 0;
                while j < m
                    invariant
                        j <= m,
                        m == outs@.len(),
                        m <= u32::MAX,
                        self.wf(),
                        storage.wf(),
                        spec_add_outputs_from(
                            self.utxos_view(storage@.utxos),
                            OutPointSourceId::BlockReward(block_id),
                            outs@.skip(j as int),
                            j as int,
                            block_index.height,
                            true,
                        ) == spec_add_outputs_from(
                            spec_remove_inputs(u0, spec_reward_inputs(*block)),
                            OutPointSourceId::BlockReward(block_id),
                            outs@,
                            0,
                            block_index.height,
                            true,
                        ),
                        self.best_block == old(self).best_block,
                        self.tx_index_enabled == old(self).tx_index_enabled,
                        self.tx_index_cache == old(self).tx_index_cache,
                        self.utxo_block_undo == old(self).utxo_block_undo,
                        self.accounting_delta == old(self).accounting_delta,
                        self.accounting_block_undo == old(self).accounting_block_undo,
                        self.accounting_block_deltas == old(self).accounting_block_deltas,
                    decreases m - j,
                {
                    proof {
                        assert(outs@.skip(j as int)[0] == outs@[j as int]);
                        assert(outs@.skip(j as int).drop_first() =~= outs@.skip(j + 1));
                    }
                    let is_burn = match &outs[j].purpose {
                        OutputPurpose::Burn => true,
                        _ => false,
                    };
                    if !is_burn {
                        let outpoint = OutPoint { source: OutPointSourceId::BlockReward(block_id), index: j as u32 };
                        let ghost view0 = self.utxos_view(storage@.utxos);
                        self.utxo_cache.insert(
                            outpoint.key(),
                            Some(Utxo { output: outs[j], height: block_index.height, is_block_reward: true }),
                        );
                        proof {
                            assert(self.utxos_view(storage@.utxos) =~= view0.insert(
                                outpoint.spec_key(),
                                Utxo { output: outs@[j as int], height: block_index.height, is_block_reward: true },
                            ));
                        }
                    }
                    j = j + 1;
                }
                proof {
                    assert(outs@.skip(m as int) =~= Seq::<TxOutput>::empty());
                }
            },
            None => {
                proof {
                    assert(spec_add_outputs_from(
                        self.utxos_view(storage@.utxos),
                        OutPointSourceId::BlockReward(block_id),
                        spec_reward_outputs(*block),
                        0,
                        block_index.height,
                        true,
                    ) == self.utxos_view(storage@.utxos));
                }
            },
        }

        // the undo that reverses the kernel spend
        if spent.len() > 0 {
            let k = block_id.value as u128;
            proof {
                self.utxo_block_undo.lemma_view_facts();
            }
            let mut bu = match self.utxo_block_undo.remove(k) {
                Some(bu) => bu,
                None => BlockUndo::new(),
            };
            bu.set_block_reward_undo(BlockRewardUndo { spent });
            self.utxo_block_undo.insert(k, bu);
        }

        // a proof-of-stake block's subsidy goes to its pool
        match block.consensus_data() {
            ConsensusData::NoConsensus => {},
            ConsensusData::PoW(_) => {},
            ConsensusData::PoS(pos) => {
                let subsidy = chain_config.block_subsidy_at_height(&block_index.block_height());
                let pool_id = *pos.stake_pool_id();
                match self.accounting_delta.add_balance(pool_id, subsidy) {
                    Ok(_) => {},
                    Err(e) => {
                        return Err(ConnectTransactionError::AccountingError(e));
                    },
                }
                let k = block_id.value as u128;
                proof {
                    self.accounting_block_undo.lemma_view_facts();
                }
                let mut abu = match self.accounting_block_undo.remove(k) {
                    Some(bu) => bu,
                    None => crate::accounting::AccountingBlockUndo::new(),
                };
                abu.set_reward_undo(crate::accounting::AccountingBlockRewardUndo::new(vec![
                    crate::accounting::PoSAccountingUndo::IncreasePoolBalance { pool_id, amount: subsidy },
                ]));
                self.accounting_block_undo.insert(k, abu);
            },
        }
        Ok(())
    }
}

/// The inputs a block's reward spends, empty when it spends nothing.
pub open spec fn spec_reward_inputs(block: Block) -> Seq<TxInput> {
    match block.header.consensus_data {
        ConsensusData::NoConsensus => Seq::empty(),
        ConsensusData::PoW(_) => Seq::empty(),
        ConsensusData::PoS(pos) => pos.kernel_inputs@,
    }
}

/// The outputs a block's reward creates, empty when it creates none.
pub open spec fn spec_reward_outputs(block: Block) -> Seq<TxOutput> {
    match block.header.consensus_data {
        ConsensusData::NoConsensus => Seq::empty(),
        ConsensusData::PoW(pow) => pow.reward_outputs@,
        ConsensusData::PoS(pos) => pos.reward_outputs@,
    }
}

impl TransactionVerifier {
    /// Seed the verifier with a block's stored undo data, so its
    /// transactions can be disconnected.
    pub fn load_block_undo(&mut self, source: &TransactionSource, undo: BlockUndo)
        requires
            old(self).wf(),
            undo.wf(),
        ensures
            final(self).wf(),
            final(self).utxo_block_undo@ == old(self).utxo_block_undo@.insert(source.spec_key(), undo),
            final(self).best_block == old(self).best_block,
            final(self).tx_index_enabled == old(self).tx_index_enabled,
            final(self).tx_index_cache == old(self).tx_index_cache,
            final(self).utxo_cache == old(self).utxo_cache,
            final(self).accounting_delta == old(self).accounting_delta,
            final(self).accounting_block_undo == old(self).accounting_block_undo,
            final(self).accounting_block_deltas == old(self).accounting_block_deltas,
    {
        self.utxo_block_undo.insert(source.key(), undo);
    }

    /// Seed the verifier with a block's stored accounting undo.
    pub fn load_accounting_undo(&mut self, source: &TransactionSource, undo: crate::accounting::AccountingBlockUndo)
        requires
            old(self).wf(),
            undo.wf(),
        ensures
            final(self).wf(),
            final(self).accounting_block_undo@
                == old(self).accounting_block_undo@.insert(source.spec_key(), undo),
            final(self).best_block == old(self).best_block,
            final(self).tx_index_enabled == old(self).tx_index_enabled,
            final(self).tx_index_cache == old(self).tx_index_cache,
            final(self).utxo_cache == old(self).utxo_cache,
            final(self).utxo_block_undo == old(self).utxo_block_undo,
            final(self).accounting_delta == old(self).accounting_delta,
            final(self).accounting_block_deltas == old(self).accounting_block_deltas,
    {
        self.accounting_block_undo.insert(source.key(), undo);
    }

    /// Reverse one transaction's effects, in reverse order of
    /// connection: restore the index records, undo the accounting,
    /// and put the unspent-output set back exactly.
    #[verifier::rlimit(60)]
    pub fn disconnect_transaction(
        &mut self,
        storage: &StoreTx<'_>,
        tx_source: &TransactionSource,
        tx: &SignedTransaction,
    ) -> (r: Result<(), ConnectTransactionError>)
        requires
            old(self).wf(),
            storage.wf(),
        ensures
            final(self).wf(),
            ({
                let sk = tx_source.spec_key();
                let txid = tx.transaction.spec_id();
                r matches Ok(_) ==> {
                    &&& old(self).utxo_block_undo@.contains_key(sk)
                    &&& old(self).utxo_block_undo@[sk]@.tx_undos.contains_key(txid.value as u128)
                    &&& final(self).utxos_view(storage@.utxos) == spec_disconnect_tx_utxos(
                        old(self).utxos_view(storage@.utxos),
                        txid,
                        tx.transaction@,
                        old(self).utxo_block_undo@[sk]@.tx_undos[txid.value as u128],
                    )
                    &&& final(self).utxo_block_undo@[sk]@.tx_undos
                        == old(self).utxo_block_undo@[sk]@.tx_undos.remove(txid.value as u128)
                }
            }),
    {
        if tx.transaction.outputs.len() > u32::MAX as usize {
            return Err(ConnectTransactionError::OutputAdditionError);
        }
        let txid = tx.transaction.get_id();
        let sk = tx_source.key();

        // take this transaction's undo record
        proof {
            self.utxo_block_undo.lemma_view_facts();
        }
        let mut bu = match self.utxo_block_undo.remove(sk) {
            Some(bu) => bu,
            None => {
                return Err(ConnectTransactionError::MissingBlockUndo(txid));
            },
        };
        proof {
            let j = choose|j: int| 0 <= j < old(self).utxo_block_undo.seq().len()
                && #[trigger] old(self).utxo_block_undo.seq()[j].0 == sk;
            assert(old(self).utxo_block_undo.seq()[j].1 == old(self).utxo_block_undo@[sk]);
        }
        let undo = match bu.take_tx_undo(txid) {
            Some(u) => u,
            None => {
                self.utxo_block_undo.insert(sk, bu);
                return Err(ConnectTransactionError::MissingTxUndo(txid));
            },
        };
        self.utxo_block_undo.insert(sk, bu);

        // restore the transaction-index records
        if self.tx_index_enabled {
            match self.tx_index_cache.remove_outputs(&tx.transaction) {
                Ok(_) => {},
                Err(e) => {
                    return Err(ConnectTransactionError::TxIndexError(e));
                },
            }
            match self.unspend_tx_index_inputs(storage, &tx.transaction.inputs) {
                Ok(_) => {},
                Err(e) => {
                    return Err(ConnectTransactionError::TxIndexError(e));
                },
            }
        }

        // undo the accounting effects, newest first
        match self.disconnect_pos_accounting_outputs(*tx_source, &tx.transaction) {
            Ok(_) => {},
            Err(e) => {
                return Err(e);
            },
        }

        // put the unspent-output set back
        match self.disconnect_transaction_utxos(storage, &tx.transaction, undo) {
            Ok(_) => {},
            Err(e) => {
                return Err(e);
            },
        }
        Ok(())
    }

    /// Reverse the accounting of a transaction's pool creations.
    pub fn disconnect_pos_accounting_outputs(
        &mut self,
        tx_source: TransactionSource,
        tx: &Transaction,
    ) -> (r: Result<(), ConnectTransactionError>)
        requires
            old(self).wf(),
        ensures
            final(self).wf(),
            final(self).best_block == old(self).best_block,
            final(self).tx_index_enabled == old(self).tx_index_enabled,
            final(self).tx_index_cache == old(self).tx_index_cache,
            final(self).utxo_cache == old(self).utxo_cache,
            final(self).utxo_block_undo == old(self).utxo_block_undo,
    {
        let sk = tx_source.key();
        let txid = tx.get_id();
        proof {
            self.accounting_block_undo.lemma_view_facts();
        }
        let taken = match self.accounting_block_undo.remove(sk) {
            Some(mut bu) => {
                proof {
                    let j = choose|j: int| 0 <= j < old(self).accounting_block_undo.seq().len()
                        && #[trigger] old(self).accounting_block_undo.seq()[j].0 == sk;
                    assert(old(self).accounting_block_undo.seq()[j].1
                        == old(self).accounting_block_undo@[sk]);
                }
                let ops = bu.take_tx_undo(txid);
                self.accounting_block_undo.insert(sk, bu);
                ops
            },
            None => None,
        };
        match taken {
            Some(tx_undo) => {
                let ops = tx_undo.into_inner();
                let mut i: usize = ops.len();
                while i > 0
                    invariant
                        i <= ops@.len(),
                        self.wf(),
                        self.best_block == old(self).best_block,
                        self.tx_index_enabled == old(self).tx_index_enabled,
                        self.tx_index_cache == old(self).tx_index_cache,
                        self.utxo_cache == old(self).utxo_cache,
                        self.utxo_block_undo == old(self).utxo_block_undo,
                    decreases i,
                {
                    i = i - 1;
                    match ops[i] {
                        crate::accounting::PoSAccountingUndo::CreatePool { pool_id, pledge } => {
                            match self.accounting_delta.sub_balance(pool_id, pledge) {
                                Ok(_) => {},
                                Err(e) => {
                                    return Err(ConnectTransactionError::AccountingError(e));
                                },
                            }
                            match self.accounting_delta.remove_pool(pool_id) {
                                Ok(_) => {},
                                Err(e) => {
                                    return Err(ConnectTransactionError::AccountingError(e));
                                },
                            }
                        },
                        crate::accounting::PoSAccountingUndo::IncreasePoolBalance { pool_id, amount } => {
                            match self.accounting_delta.sub_balance(pool_id, amount) {
                                Ok(_) => {},
                                Err(e) => {
                                    return Err(ConnectTransactionError::AccountingError(e));
                                },
                            }
                        },
                    }
                }
                Ok(())
            },
            None => Ok(()),
        }
    }

    /// Whether a remaining undo record of a source spends an output
    /// of `tx_id`: then some still-connected later transaction
    /// depends on it.
    pub open spec fn spec_undo_has_children(undo: crate::utxo::BlockUndoV, tx_id: Id) -> bool {
        exists|k: u128, j: int| #[trigger] undo.tx_undos.contains_key(k)
            && 0 <= j < undo.tx_undos[k].spent_outpoints.len()
            && #[trigger] undo.tx_undos[k].spent_outpoints[j].source
                == OutPointSourceId::Transaction(tx_id)
    }

    /// The cached child test matches the view-level one.
    pub proof fn lemma_children_bridge(bu: BlockUndo, tx_id: Id)
        requires
            bu.wf(),
        ensures
            (exists|i: int, j: int|
                0 <= i < bu.tx_undos.seq().len()
                && 0 <= j < bu.tx_undos.seq()[i].1.spent_outpoints@.len()
                && #[trigger] bu.tx_undos.seq()[i].1.spent_outpoints@[j].source
                    == OutPointSourceId::Transaction(tx_id))
            <==> Self::spec_undo_has_children(bu@, tx_id),
    {
        bu.tx_undos.lemma_view_facts();
        if exists|i: int, j: int|
            0 <= i < bu.tx_undos.seq().len()
            && 0 <= j < bu.tx_undos.seq()[i].1.spent_outpoints@.len()
            && #[trigger] bu.tx_undos.seq()[i].1.spent_outpoints@[j].source
                == OutPointSourceId::Transaction(tx_id) {
            let (i, j) = choose|i: int, j: int|
                0 <= i < bu.tx_undos.seq().len()
                && 0 <= j < bu.tx_undos.seq()[i].1.spent_outpoints@.len()
                && #[trigger] bu.tx_undos.seq()[i].1.spent_outpoints@[j].source
                    == OutPointSourceId::Transaction(tx_id);
            let k = bu.tx_undos.seq()[i].0;
            assert(bu.tx_undos@.contains_key(k));
            assert(bu.tx_undos@[k] == bu.tx_undos.seq()[i].1);
            assert(bu@.tx_undos.contains_key(k));
            assert(bu@.tx_undos[k] == bu.tx_undos.seq()[i].1@);
            assert(bu@.tx_undos[k].spent_outpoints[j].source == OutPointSourceId::Transaction(tx_id));
        }
        if Self::spec_undo_has_children(bu@, tx_id) {
            let (k, j) = choose|k: u128, j: int| #[trigger] bu@.tx_undos.contains_key(k)
                && 0 <= j < bu@.tx_undos[k].spent_outpoints.len()
                && #[trigger] bu@.tx_undos[k].spent_outpoints[j].source
                    == OutPointSourceId::Transaction(tx_id);
            assert(bu.tx_undos@.contains_key(k));
            let i = choose|i: int| 0 <= i < bu.tx_undos.seq().len()
                && #[trigger] bu.tx_undos.seq()[i].0 == k;
            assert(bu.tx_undos.seq()[i].1 == bu.tx_undos@[k]);
            assert(bu.tx_undos.seq()[i].1.spent_outpoints@[j].source
                == OutPointSourceId::Transaction(tx_id));
        }
    }

    /// Whether a connected transaction can be disconnected: nothing
    /// in a later, still-connected block may spend its outputs, and a
    /// chain source must still be at or above the best block.
    pub fn can_disconnect_transaction(
        &self,
        storage: &StoreTx<'_>,
        tx_source: &TransactionSource,
        tx_id: &Id,
    ) -> (r: Result<bool, ConnectTransactionError>)
        requires
            self.wf(),
            storage.wf(),
        ensures
            ({
                let undo = self.spec_block_undo(storage@, *tx_source);
                match *tx_source {
                    TransactionSource::Chain(block_id) => {
                        let bk = block_id.value as u128;
                        &&& (!storage@.block_index.contains_key(bk)
                            ==> r == Result::<bool, ConnectTransactionError>::Err(
                                ConnectTransactionError::BlockIndexCouldNotBeLoaded(block_id),
                            ))
                        &&& (storage@.block_index.contains_key(bk) ==> {
                            let current_height = storage@.block_index[bk].height.val;
                            let best_height: int = if self.best_block.value == 0 {
                                0
                            } else if storage@.block_index.contains_key(self.best_block.value as u128) {
                                storage@.block_index[self.best_block.value as u128].height.val as int
                            } else {
                                0
                            };
                            &&& (current_height < best_height
                                ==> r == Result::<bool, ConnectTransactionError>::Ok(false))
                            &&& (current_height >= best_height ==> match undo {
                                Some(u) => r == Result::<bool, ConnectTransactionError>::Ok(
                                    !Self::spec_undo_has_children(u, *tx_id),
                                ),
                                None => r == Result::<bool, ConnectTransactionError>::Err(
                                    ConnectTransactionError::MissingBlockUndo(*tx_id),
                                ),
                            })
                        })
                    },
                    TransactionSource::Mempool => match undo {
                        Some(u) => r == Result::<bool, ConnectTransactionError>::Ok(
                            !Self::spec_undo_has_children(u, *tx_id),
                        ),
                        None => r == Result::<bool, ConnectTransactionError>::Err(
                            ConnectTransactionError::MissingBlockUndo(*tx_id),
                        ),
                    },
                }
            }),
    {
        match tx_source {
            TransactionSource::Chain(block_id) => {
                let current_height = match storage.get_block_index(*block_id) {
                    Some(bi) => bi.block_height(),
                    None => {
                        return Err(ConnectTransactionError::BlockIndexCouldNotBeLoaded(*block_id));
                    },
                };
                let best_height = if self.best_block.value == 0 {
                    BlockHeight::zero()
                } else {
                    match storage.get_block_index(self.best_block) {
                        Some(bi) => bi.block_height(),
                        None => BlockHeight::zero(),
                    }
                };
                if current_height.get() < best_height.get() {
                    return Ok(false);
                }
                match self.read_block_undo(storage, tx_source) {
                    Some(bu) => {
                        let has = bu.has_children_of(*tx_id);
                        proof {
                            Self::lemma_children_bridge(*bu, *tx_id);
                        }
                        Ok(!has)
                    },
                    None => Err(ConnectTransactionError::MissingBlockUndo(*tx_id)),
                }
            },
            TransactionSource::Mempool => {
                match self.read_block_undo(storage, tx_source) {
                    Some(bu) => {
                        let has = bu.has_children_of(*tx_id);
                        proof {
                            Self::lemma_children_bridge(*bu, *tx_id);
                        }
                        Ok(!has)
                    },
                    None => Err(ConnectTransactionError::MissingBlockUndo(*tx_id)),
                }
            },
        }
    }

    /// The undo record a source's disconnects will consume: the
    /// verifier's own when loaded, else the stored one for a chain
    /// source, nothing for an unloaded mempool source.
    pub open spec fn spec_block_undo(self, v: ChainView, tx_source: TransactionSource) -> Option<
        crate::utxo::BlockUndoV,
    > {
        let sk = tx_source.spec_key();
        if self.utxo_block_undo@.contains_key(sk) {
            Some(self.utxo_block_undo@[sk]@)
        } else {
            match tx_source {
                TransactionSource::Chain(block_id) => if v.utxo_undo.contains_key(block_id.value as u128) {
                    Some(v.utxo_undo[block_id.value as u128])
                } else {
                    None
                },
                TransactionSource::Mempool => None,
            }
        }
    }

    /// A source's undo data: the verifier's own, else the stored one.
    pub fn read_block_undo<'s>(&'s self, storage: &'s StoreTx<'s>, tx_source: &TransactionSource) -> (r: Option<
        &'s BlockUndo,
    >)
        requires
            self.wf(),
            storage.wf(),
        ensures
            r is Some <==> self.spec_block_undo(storage@, *tx_source) is Some,
            r matches Some(bu) ==> bu.wf()
                && Some(bu@) == self.spec_block_undo(storage@, *tx_source),
    {
        proof {
            self.utxo_block_undo.lemma_view_facts();
        }
        match self.utxo_block_undo.get(tx_source.key()) {
            Some(bu) => {
                proof {
                    let j = choose|j: int| 0 <= j < self.utxo_block_undo.seq().len()
                        && #[trigger] self.utxo_block_undo.seq()[j].0 == tx_source.spec_key();
                    assert(self.utxo_block_undo.seq()[j].1
                        == self.utxo_block_undo@[tx_source.spec_key()]);
                }
                Some(bu)
            },
            None => {
                match tx_source {
                    TransactionSource::Chain(block_id) => storage.get_undo_data(*block_id),
                    TransactionSource::Mempool => None,
                }
            },
        }
    }

    /// Connect one operation of a block: a transaction or the reward;
    /// a fresh transaction-index record is cached when maintenance is
    /// enabled.
    pub fn connect_transactable(
        &mut self,
        chain_config: &ChainConfig,
        storage: &StoreTx<'_>,
        block_index: &BlockIndex,
        spend_ref: BlockTransactableWithIndexRef<'_>,
        median_time_past: &BlockTimestamp,
    ) -> (r: Result<Option<Fee>, ConnectTransactionError>)
        requires
            old(self).wf(),
            storage.wf(),
        ensures
            final(self).wf(),
            // the forward ledger effect of the named transactable
            r is Ok ==> (match spend_ref {
                BlockTransactableWithIndexRef::Transaction(block, tx_num, _) => {
                    &&& tx_num < block.transactions@.len()
                    &&& final(self).utxos_view(storage@.utxos) == spec_connect_tx_utxos(
                        old(self).utxos_view(storage@.utxos),
                        block.transactions@[tx_num as int].transaction.spec_id(),
                        block.transactions@[tx_num as int].transaction@,
                        BlockHeight { val: block_index.height.val },
                    )
                },
                BlockTransactableWithIndexRef::BlockReward(block, _) => {
                    final(self).utxos_view(storage@.utxos) == spec_connect_reward_utxos(
                        old(self).utxos_view(storage@.utxos),
                        block_index.block_id,
                        spec_reward_inputs(*block),
                        spec_reward_outputs(*block),
                        block_index.height,
                    )
                },
            }),
    {
        match spend_ref.without_tx_index() {
            BlockTransactableRef::Transaction(block, tx_num) => {
                if tx_num >= block.transactions.len() || tx_num > u32::MAX as usize {
                    return Err(ConnectTransactionError::TxNumWrongInBlockOnConnect(tx_num, block.get_id()));
                }
                let fee = match self.connect_transaction(
                    chain_config,
                    storage,
                    &TransactionSourceForConnect::Chain { new_block_index: block_index },
                    &block.transactions[tx_num],
                    median_time_past,
                ) {
                    Ok(f) => f,
                    Err(e) => {
                        return Err(e);
                    },
                };
                if self.tx_index_enabled {
                    match self.tx_index_cache.add_outputs(block, &SpendKind::Transaction(tx_num)) {
                        Ok(_) => {},
                        Err(e) => {
                            return Err(ConnectTransactionError::TxIndexError(e));
                        },
                    }
                }
                Ok(fee)
            },
            BlockTransactableRef::BlockReward(block) => {
                match self.connect_block_reward(chain_config, storage, block_index, block) {
                    Ok(_) => {},
                    Err(e) => {
                        return Err(e);
                    },
                }
                if self.tx_index_enabled {
                    let reward = block.block_reward_transactable();
                    let has_outputs = match reward.outputs {
                        Some(outs) => outs.len() > 0,
                        None => false,
                    };
                    if has_outputs {
                        match self.tx_index_cache.add_outputs(block, &SpendKind::BlockReward) {
                            Ok(_) => {},
                            Err(e) => {
                                return Err(ConnectTransactionError::TxIndexError(e));
                            },
                        }
                    }
                    match reward.inputs {
                        Some(ins) => {
                            match self.spend_tx_index_inputs(
                                storage,
                                chain_config,
                                ins,
                                &block_index.block_height(),
                                Spender::StakeKernel(*block_index.block_id()),
                            ) {
                                Ok(_) => {},
                                Err(e) => {
                                    return Err(ConnectTransactionError::TxIndexError(e));
                                },
                            }
                        },
                        None => {},
                    }
                }
                Ok(None)
            },
        }
    }

    /// Disconnect one operation of a block; transactions of one block
    /// leave in reverse order of connection.
    #[verifier::rlimit(60)]
    pub fn disconnect_transactable(
        &mut self,
        storage: &StoreTx<'_>,
        spend_ref: BlockTransactableRef<'_>,
    ) -> (r: Result<(), ConnectTransactionError>)
        requires
            old(self).wf(),
            storage.wf(),
        ensures
            final(self).wf(),
            // the reverse ledger effect of a transaction: its outputs
            // vanish, what its undo recorded comes back
            r is Ok ==> (match spend_ref {
                BlockTransactableRef::Transaction(block, tx_num) => {
                    let sk = TransactionSource::Chain(block.spec_id()).spec_key();
                    let txid = block.transactions@[tx_num as int].transaction.spec_id();
                    &&& tx_num < block.transactions@.len()
                    &&& old(self).utxo_block_undo@.contains_key(sk)
                    &&& old(self).utxo_block_undo@[sk]@.tx_undos.contains_key(txid.value as u128)
                    &&& final(self).utxos_view(storage@.utxos) == spec_disconnect_tx_utxos(
                        old(self).utxos_view(storage@.utxos),
                        txid,
                        block.transactions@[tx_num as int].transaction@,
                        old(self).utxo_block_undo@[sk]@.tx_undos[txid.value as u128],
                    )
                },
                BlockTransactableRef::BlockReward(_) => true,
            }),
    {
        match spend_ref {
            BlockTransactableRef::Transaction(block, tx_num) => {
                if tx_num >= block.transactions.len() {
                    return Err(ConnectTransactionError::TxNumWrongInBlockOnDisconnect(tx_num, block.get_id()));
                }
                let block_id = block.get_id();
                self.disconnect_transaction(
                    storage,
                    &TransactionSource::Chain(block_id),
                    &block.transactions[tx_num],
                )
            },
            BlockTransactableRef::BlockReward(block) => {
                let block_id = block.get_id();
                let reward = block.block_reward_transactable();
                // take the reward undo, if the kernel spent anything
                let sk = TransactionSource::Chain(block_id).key();
                proof {
                    self.utxo_block_undo.lemma_view_facts();
                }
                let reward_undo = match self.utxo_block_undo.remove(sk) {
                    Some(mut bu) => {
                        proof {
                            let j = choose|j: int| 0 <= j < old(self).utxo_block_undo.seq().len()
                                && #[trigger] old(self).utxo_block_undo.seq()[j].0 == sk;
                            assert(old(self).utxo_block_undo.seq()[j].1
                                == old(self).utxo_block_undo@[sk]);
                        }
                        let ru = bu.take_block_reward_undo();
                        self.utxo_block_undo.insert(sk, bu);
                        ru
                    },
                    None => None,
                };
                // delete the reward outputs from the view
                match reward.outputs {
                    Some(outs) => {
                        if outs.len() > u32::MAX as usize {
                            return Err(ConnectTransactionError::OutputAdditionError);
                        }
                        let m = outs.len();
                        let mut j: usize = 0;
                        while j < m
                            invariant
                                j <= m,
                                m == outs@.len(),
                                m <= u32::MAX,
                                self.wf(),
                                storage.wf(),
                            decreases m - j,
                        {
                            let is_burn = match &outs[j].purpose {
                                OutputPurpose::Burn => true,
                                _ => false,
                            };
                            if !is_burn {
                                let outpoint = OutPoint {
                                    source: OutPointSourceId::BlockReward(block_id),
                                    index: j as u32,
                                };
                                self.utxo_cache.insert(outpoint.key(), None);
                            }
                            j = j + 1;
                        }
                    },
                    None => {},
                }
                // restore what the kernel spent
                match reward_undo {
                    Some(ru) => {
                        match reward.inputs {
                            Some(ins) => {
                                let n = if ins.len() < ru.spent.len() { ins.len() } else { ru.spent.len() };
                                let mut i: usize = 0;
                                while i < n
                                    invariant
                                        i <= n,
                                        n <= ins@.len(),
                                        n <= ru.spent@.len(),
                                        self.wf(),
                                        storage.wf(),
                                    decreases n - i,
                                {
                                    self.utxo_cache.insert(ins[i].outpoint.key(), Some(ru.spent[i]));
                                    i = i + 1;
                                }
                            },
                            None => {},
                        }
                    },
                    None => {},
                }
                // restore the index records of the kernel inputs
                if self.tx_index_enabled {
                    match reward.inputs {
                        Some(ins) => {
                            match self.unspend_tx_index_inputs(storage, ins) {
                                Ok(_) => {},
                                Err(e) => {
                                    return Err(ConnectTransactionError::TxIndexError(e));
                                },
                            }
                        },
                        None => {},
                    }
                }
                // undo the subsidy credit of a proof-of-stake block
                match block.consensus_data() {
                    ConsensusData::NoConsensus => {},
                    ConsensusData::PoW(_) => {},
                    ConsensusData::PoS(_) => {
                        proof {
                            self.accounting_block_undo.lemma_view_facts();
                        }
                        let taken = match self.accounting_block_undo.remove(sk) {
                            Some(mut bu) => {
                                proof {
                                    let j = choose|j: int| 0 <= j < self.accounting_block_undo.seq().len()
                                        && #[trigger] self.accounting_block_undo.seq()[j].0 == sk;
                                }
                                let ru = bu.take_reward_undo();
                                self.accounting_block_undo.insert(sk, bu);
                                ru
                            },
                            None => None,
                        };
                        match taken {
                            Some(ru) => {
                                let ops = ru.into_inner();
                                let mut i: usize = ops.len();
                                while i > 0
                                    invariant
                                        i <= ops@.len(),
                                        self.wf(),
                                    decreases i,
                                {
                                    i = i - 1;
                                    match ops[i] {
                                        crate::accounting::PoSAccountingUndo::CreatePool { pool_id, pledge } => {
                                            match self.accounting_delta.sub_balance(pool_id, pledge) {
                                                Ok(_) => {},
                                                Err(e) => {
                                                    return Err(ConnectTransactionError::AccountingError(e));
                                                },
                                            }
                                            match self.accounting_delta.remove_pool(pool_id) {
                                                Ok(_) => {},
                                                Err(e) => {
                                                    return Err(ConnectTransactionError::AccountingError(e));
                                                },
                                            }
                                        },
                                        crate::accounting::PoSAccountingUndo::IncreasePoolBalance { pool_id, amount } => {
                                            match self.accounting_delta.sub_balance(pool_id, amount) {
                                                Ok(_) => {},
                                                Err(e) => {
                                                    return Err(ConnectTransactionError::AccountingError(e));
                                                },
                                            }
                                        },
                                    }
                                }
                            },
                            None => {},
                        }
                    },
                }
                Ok(())
            },
        }
    }
}

/// Land a verifier's utxo delta in a storage transaction.
fn flush_utxos(db_tx: &mut StoreTx<'_>, cache: UMap<Option<Utxo>>)
    requires
        old(db_tx).wf(),
        cache.wf(),
    ensures
        final(db_tx).wf(),
        final(db_tx).base == old(db_tx).base,
        final(db_tx)@ == (ChainView {
            utxos: eff_map(old(db_tx)@.utxos, cache@),
            ..old(db_tx)@
        }),
{
    let ghost target = eff_map(old(db_tx)@.utxos, cache@);
    let mut work = cache;
    loop
        invariant
            db_tx.wf(),
            db_tx.base == old(db_tx).base,
            work.wf(),
            eff_map(db_tx@.utxos, crate::collections::entries_as_map(work.seq())) =~= target,
            db_tx@ == (ChainView { utxos: db_tx@.utxos, ..old(db_tx)@ }),
        ensures
            db_tx.wf(),
            db_tx.base == old(db_tx).base,
            db_tx@ == (ChainView { utxos: target, ..old(db_tx)@ }),
        decreases work.seq().len(),
    {
        let popped = work.entries.pop();
        match popped {
            None => {
                proof {
                    assert(crate::collections::entries_as_map(work.seq())
                        =~= Map::<u128, Option<Utxo>>::empty());
                    assert(eff_map(db_tx@.utxos, Map::<u128, Option<Utxo>>::empty()) =~= db_tx@.utxos);
                }
                break;
            },
            Some((k, ov)) => {
                let ghost pre_seq = work.seq().push((k, ov));
                let ghost v0 = db_tx@.utxos;
                proof {
                    assert(pre_seq.drop_last() =~= work.seq());
                    crate::collections::lemma_entries_as_map_contains(work.seq(), k);
                    assert(!crate::collections::entries_as_map(work.seq()).contains_key(k)) by {
                        if crate::collections::entries_as_map(work.seq()).contains_key(k) {
                            let i = choose|i: int| 0 <= i < work.seq().len()
                                && #[trigger] work.seq()[i].0 == k;
                            assert(pre_seq[i].0 < pre_seq[pre_seq.len() - 1].0);
                        }
                    };
                }
                db_tx.delta.utxos.insert(k, ov);
                proof {
                    assert(db_tx@.utxos =~= (match ov {
                        Some(v) => v0.insert(k, v),
                        None => v0.remove(k),
                    }));
                    assert(crate::collections::entries_as_map(pre_seq)
                        == crate::collections::entries_as_map(work.seq()).insert(k, ov));
                    assert(eff_map(db_tx@.utxos, crate::collections::entries_as_map(work.seq()))
                        =~= eff_map(v0, crate::collections::entries_as_map(pre_seq)));
                    assert(db_tx@ == (ChainView { utxos: db_tx@.utxos, ..old(db_tx)@ }));
                }
            },
        }
    }
}

/// Land a verifier's per-block utxo undo records in storage.
fn flush_utxo_undos(db_tx: &mut StoreTx<'_>, undos: UMap<BlockUndo>)
    requires
        old(db_tx).wf(),
        undos.wf(),
        forall|i: int| 0 <= i < undos.seq().len() ==> (#[trigger] undos.seq()[i].1).wf(),
    ensures
        final(db_tx).wf(),
        final(db_tx).base == old(db_tx).base,
        final(db_tx)@ == (ChainView {
            utxo_undo: old(db_tx)@.utxo_undo.union_prefer_right(
                undos@.map_values(|u: BlockUndo| u@),
            ),
            ..old(db_tx)@
        }),
{
    let ghost target = old(db_tx)@.utxo_undo.union_prefer_right(undos@.map_values(|u: BlockUndo| u@));
    let ghost full = undos@.map_values(|u: BlockUndo| u@);
    let mut work = undos;
    loop
        invariant
            db_tx.wf(),
            db_tx.base == old(db_tx).base,
            work.wf(),
            forall|i: int| 0 <= i < work.seq().len() ==> (#[trigger] work.seq()[i].1).wf(),
            db_tx@.utxo_undo.union_prefer_right(
                crate::collections::entries_as_map(work.seq()).map_values(|u: BlockUndo| u@),
            ) =~= target,
            db_tx@ == (ChainView { utxo_undo: db_tx@.utxo_undo, ..old(db_tx)@ }),
        ensures
            db_tx.wf(),
            db_tx.base == old(db_tx).base,
            db_tx@ == (ChainView { utxo_undo: target, ..old(db_tx)@ }),
        decreases work.seq().len(),
    {
        let ghost pre_work = work.seq();
        let popped = work.entries.pop();
        match popped {
            None => {
                proof {
                    assert(crate::collections::entries_as_map(work.seq())
                        =~= Map::<u128, BlockUndo>::empty());
                    assert(db_tx@.utxo_undo.union_prefer_right(
                        Map::<u128, BlockUndo>::empty().map_values(|u: BlockUndo| u@),
                    ) =~= db_tx@.utxo_undo);
                }
                break;
            },
            Some((k, undo)) => {
                let ghost v0 = db_tx@.utxo_undo;
                proof {
                    assert(pre_work.drop_last() =~= work.seq());
                    assert(pre_work[pre_work.len() - 1].1 == undo);
                    assert(undo.wf());
                    assert(forall|i: int| 0 <= i < work.seq().len()
                        ==> #[trigger] work.seq()[i] == pre_work[i]);
                    crate::collections::lemma_entries_as_map_contains(work.seq(), k);
                    assert(!crate::collections::entries_as_map(work.seq()).contains_key(k)) by {
                        if crate::collections::entries_as_map(work.seq()).contains_key(k) {
                            let i = choose|i: int| 0 <= i < work.seq().len()
                                && #[trigger] work.seq()[i].0 == k;
                            assert(pre_work[i].0 < pre_work[pre_work.len() - 1].0);
                        }
                    };
                }
                db_tx.delta.utxo_undo.insert(k, Some(undo));
                proof {
                    assert(db_tx@.utxo_undo =~= v0.insert(k, undo@));
                    assert(crate::collections::entries_as_map(pre_work)
                        == crate::collections::entries_as_map(work.seq()).insert(k, undo));
                    assert(db_tx@.utxo_undo.union_prefer_right(
                        crate::collections::entries_as_map(work.seq()).map_values(|u: BlockUndo| u@),
                    ) =~= v0.union_prefer_right(
                        crate::collections::entries_as_map(pre_work).map_values(|u: BlockUndo| u@),
                    ));
                    assert(db_tx@ == (ChainView { utxo_undo: db_tx@.utxo_undo, ..old(db_tx)@ }));
                }
            },
        }
    }
}

/// Land a verifier's per-block accounting undo records in storage.
fn flush_acc_undos(db_tx: &mut StoreTx<'_>, undos: UMap<crate::accounting::AccountingBlockUndo>)
    requires
        old(db_tx).wf(),
        undos.wf(),
        forall|i: int| 0 <= i < undos.seq().len() ==> (#[trigger] undos.seq()[i].1).wf(),
    ensures
        final(db_tx).wf(),
        final(db_tx).base == old(db_tx).base,
        final(db_tx)@ == (ChainView {
            acc_undo: old(db_tx)@.acc_undo.union_prefer_right(
                undos@.map_values(|u: crate::accounting::AccountingBlockUndo| u@),
            ),
            ..old(db_tx)@
        }),
{
    let ghost target = old(db_tx)@.acc_undo.union_prefer_right(
        undos@.map_values(|u: crate::accounting::AccountingBlockUndo| u@),
    );
    let mut work = undos;
    loop
        invariant
            db_tx.wf(),
            db_tx.base == old(db_tx).base,
            work.wf(),
            forall|i: int| 0 <= i < work.seq().len() ==> (#[trigger] work.seq()[i].1).wf(),
            db_tx@.acc_undo.union_prefer_right(
                crate::collections::entries_as_map(work.seq())
                    .map_values(|u: crate::accounting::AccountingBlockUndo| u@),
            ) =~= target,
            db_tx@ == (ChainView { acc_undo: db_tx@.acc_undo, ..old(db_tx)@ }),
        ensures
            db_tx.wf(),
            db_tx.base == old(db_tx).base,
            db_tx@ == (ChainView { acc_undo: target, ..old(db_tx)@ }),
        decreases work.seq().len(),
    {
        let ghost pre_work = work.seq();
        let popped = work.entries.pop();
        match popped {
            None => {
                proof {
                    assert(crate::collections::entries_as_map(work.seq())
                        =~= Map::<u128, crate::accounting::AccountingBlockUndo>::empty());
                    assert(db_tx@.acc_undo.union_prefer_right(
                        Map::<u128, crate::accounting::AccountingBlockUndo>::empty()
                            .map_values(|u: crate::accounting::AccountingBlockUndo| u@),
                    ) =~= db_tx@.acc_undo);
                }
                break;
            },
            Some((k, undo)) => {
                let ghost v0 = db_tx@.acc_undo;
                proof {
                    assert(pre_work.drop_last() =~= work.seq());
                    assert(pre_work[pre_work.len() - 1].1 == undo);
                    assert(undo.wf());
                    crate::collections::lemma_entries_as_map_contains(work.seq(), k);
                    assert(!crate::collections::entries_as_map(work.seq()).contains_key(k)) by {
                        if crate::collections::entries_as_map(work.seq()).contains_key(k) {
                            let i = choose|i: int| 0 <= i < work.seq().len()
                                && #[trigger] work.seq()[i].0 == k;
                            assert(pre_work[i].0 < pre_work[pre_work.len() - 1].0);
                        }
                    };
                }
                db_tx.delta.acc_undo.insert(k, Some(undo));
                proof {
                    assert(db_tx@.acc_undo =~= v0.insert(k, undo@));
                    assert(crate::collections::entries_as_map(pre_work)
                        == crate::collections::entries_as_map(work.seq()).insert(k, undo));
                    assert(db_tx@.acc_undo.union_prefer_right(
                        crate::collections::entries_as_map(work.seq())
                            .map_values(|u: crate::accounting::AccountingBlockUndo| u@),
                    ) =~= v0.union_prefer_right(
                        crate::collections::entries_as_map(pre_work)
                            .map_values(|u: crate::accounting::AccountingBlockUndo| u@),
                    ));
                    assert(db_tx@ == (ChainView { acc_undo: db_tx@.acc_undo, ..old(db_tx)@ }));
                }
            },
        }
    }
}

/// Land a verifier's per-block accounting deltas in storage.
fn flush_acc_deltas(db_tx: &mut StoreTx<'_>, deltas: UMap<crate::accounting::PoSAccountingDeltaData>)
    requires
        old(db_tx).wf(),
        deltas.wf(),
        forall|i: int| 0 <= i < deltas.seq().len() ==> (#[trigger] deltas.seq()[i].1).wf(),
    ensures
        final(db_tx).wf(),
        final(db_tx).base == old(db_tx).base,
        final(db_tx)@ == (ChainView {
            acc_deltas: old(db_tx)@.acc_deltas.union_prefer_right(
                deltas@.map_values(|u: crate::accounting::PoSAccountingDeltaData| u@),
            ),
            ..old(db_tx)@
        }),
{
    let ghost target = old(db_tx)@.acc_deltas.union_prefer_right(
        deltas@.map_values(|u: crate::accounting::PoSAccountingDeltaData| u@),
    );
    let mut work = deltas;
    loop
        invariant
            db_tx.wf(),
            db_tx.base == old(db_tx).base,
            work.wf(),
            forall|i: int| 0 <= i < work.seq().len() ==> (#[trigger] work.seq()[i].1).wf(),
            db_tx@.acc_deltas.union_prefer_right(
                crate::collections::entries_as_map(work.seq())
                    .map_values(|u: crate::accounting::PoSAccountingDeltaData| u@),
            ) =~= target,
            db_tx@ == (ChainView { acc_deltas: db_tx@.acc_deltas, ..old(db_tx)@ }),
        ensures
            db_tx.wf(),
            db_tx.base == old(db_tx).base,
            db_tx@ == (ChainView { acc_deltas: target, ..old(db_tx)@ }),
        decreases work.seq().len(),
    {
        let ghost pre_work = work.seq();
        let popped = work.entries.pop();
        match popped {
            None => {
                proof {
                    assert(crate::collections::entries_as_map(work.seq())
                        =~= Map::<u128, crate::accounting::PoSAccountingDeltaData>::empty());
                    assert(db_tx@.acc_deltas.union_prefer_right(
                        Map::<u128, crate::accounting::PoSAccountingDeltaData>::empty()
                            .map_values(|u: crate::accounting::PoSAccountingDeltaData| u@),
                    ) =~= db_tx@.acc_deltas);
                }
                break;
            },
            Some((k, dd)) => {
                let ghost v0 = db_tx@.acc_deltas;
                proof {
                    assert(pre_work.drop_last() =~= work.seq());
                    assert(pre_work[pre_work.len() - 1].1 == dd);
                    assert(dd.wf());
                    crate::collections::lemma_entries_as_map_contains(work.seq(), k);
                    assert(!crate::collections::entries_as_map(work.seq()).contains_key(k)) by {
                        if crate::collections::entries_as_map(work.seq()).contains_key(k) {
                            let i = choose|i: int| 0 <= i < work.seq().len()
                                && #[trigger] work.seq()[i].0 == k;
                            assert(pre_work[i].0 < pre_work[pre_work.len() - 1].0);
                        }
                    };
                }
                db_tx.delta.acc_deltas.insert(k, Some(dd));
                proof {
                    assert(db_tx@.acc_deltas =~= v0.insert(k, dd@));
                    assert(crate::collections::entries_as_map(pre_work)
                        == crate::collections::entries_as_map(work.seq()).insert(k, dd));
                    assert(db_tx@.acc_deltas.union_prefer_right(
                        crate::collections::entries_as_map(work.seq())
                            .map_values(|u: crate::accounting::PoSAccountingDeltaData| u@),
                    ) =~= v0.union_prefer_right(
                        crate::collections::entries_as_map(pre_work)
                            .map_values(|u: crate::accounting::PoSAccountingDeltaData| u@),
                    ));
                    assert(db_tx@ == (ChainView { acc_deltas: db_tx@.acc_deltas, ..old(db_tx)@ }));
                }
            },
        }
    }
}

/// Land a verifier's net accounting change on the tip tables: new
/// pools are stored, balance additions add up.
fn flush_accounting(db_tx: &mut StoreTx<'_>, delta: crate::accounting::PoSAccountingDeltaData) -> (r: Result<
    (),
    ConnectTransactionError,
>)
    requires
        old(db_tx).wf(),
        delta.wf(),
    ensures
        final(db_tx).wf(),
        final(db_tx).base == old(db_tx).base,
        r is Ok ==> final(db_tx)@ == (ChainView {
            pool_data: old(db_tx)@.pool_data.union_prefer_right(delta.created_pools@),
            pool_balances: crate::accounting::spec_sum_merge(
                old(db_tx)@.pool_balances,
                delta.balance_additions.seq(),
            ),
            ..old(db_tx)@
        }),
{
    let n = delta.created_pools.len();
    proof {
        assert(delta.created_pools.seq().take(0) =~= Seq::<(u128, crate::output::StakePoolData)>::empty());
        assert(old(db_tx)@.pool_data.union_prefer_right(
            crate::collections::entries_as_map(delta.created_pools.seq().take(0)),
        ) =~= old(db_tx)@.pool_data);
    }
    let mut i: usize = 0;
    while i < n
        invariant
            i <= n,
            db_tx.wf(),
            db_tx.base == old(db_tx).base,
            delta.wf(),
            n == delta.created_pools.seq().len(),
            db_tx@ == (ChainView {
                pool_data: old(db_tx)@.pool_data.union_prefer_right(
                    crate::collections::entries_as_map(delta.created_pools.seq().take(i as int)),
                ),
                ..old(db_tx)@
            }),
        decreases n - i,
    {
        proof {
            assert(delta.created_pools.seq().take(i + 1).drop_last()
                =~= delta.created_pools.seq().take(i as int));
            assert(delta.created_pools.seq().take(i + 1).last() == delta.created_pools.seq()[i as int]);
        }
        let entry = delta.created_pools.entry_at(i);
        let ghost v0 = db_tx@.pool_data;
        db_tx.delta.pool_data.insert(entry.0, Some(entry.1));
        proof {
            assert(db_tx@.pool_data =~= v0.insert(entry.0, entry.1));
            assert(db_tx@.pool_data =~= old(db_tx)@.pool_data.union_prefer_right(
                crate::collections::entries_as_map(delta.created_pools.seq().take(i + 1)),
            ));
        }
        i = i + 1;
    }
    proof {
        assert(delta.created_pools.seq().take(n as int) =~= delta.created_pools.seq());
        assert(crate::collections::entries_as_map(delta.created_pools.seq()) == delta.created_pools@);
    }
    let m = delta.balance_additions.len();
    let mut j: usize = 0;
    while j < m
        invariant
            j <= m,
            db_tx.wf(),
            db_tx.base == old(db_tx).base,
            delta.wf(),
            m == delta.balance_additions.seq().len(),
            db_tx@ == (ChainView {
                pool_data: old(db_tx)@.pool_data.union_prefer_right(delta.created_pools@),
                pool_balances: crate::accounting::spec_sum_merge(
                    old(db_tx)@.pool_balances,
                    delta.balance_additions.seq().take(j as int),
                ),
                ..old(db_tx)@
            }),
        decreases m - j,
    {
        proof {
            assert(delta.balance_additions.seq().take(j + 1).drop_last()
                =~= delta.balance_additions.seq().take(j as int));
            assert(delta.balance_additions.seq().take(j + 1).last()
                == delta.balance_additions.seq()[j as int]);
        }
        let entry = delta.balance_additions.entry_at(j);
        let key = entry.0;
        let addition = entry.1;
        let prior = match db_tx.delta.pool_balances.get(key) {
            Some(inner) => match inner {
                Some(b) => *b,
                None => Amount::from_atoms(0),
            },
            None => match db_tx.base.pool_balances.get(key) {
                Some(b) => *b,
                None => Amount::from_atoms(0),
            },
        };
        proof {
            assert(prior@ == (if db_tx@.pool_balances.contains_key(key) {
                db_tx@.pool_balances[key]@
            } else {
                0
            }));
        }
        let total = match prior.add(addition) {
            Some(t) => t,
            None => {
                return Err(ConnectTransactionError::AccountingError(
                    crate::accounting::AccountingError::PoolBalanceAdditionError,
                ));
            },
        };
        let ghost v0 = db_tx@.pool_balances;
        db_tx.delta.pool_balances.insert(key, Some(total));
        proof {
            assert(db_tx@.pool_balances =~= v0.insert(key, total));
        }
        j = j + 1;
    }
    proof {
        assert(delta.balance_additions.seq().take(m as int) =~= delta.balance_additions.seq());
    }
    Ok(())
}

/// Land a consumed verifier's whole change in a storage transaction,
/// as one unit: the unspent outputs move to the verifier's view, the
/// undo and delta records land beside them, the transaction index
/// receives the cached operations.
pub fn flush_verifier_delta(db_tx: &mut StoreTx<'_>, delta: TransactionVerifierDelta) -> (r: Result<
    (),
    ConnectTransactionError,
>)
    requires
        old(db_tx).wf(),
        delta.utxo_cache.wf(),
        delta.utxo_block_undo.wf(),
        forall|i: int| 0 <= i < delta.utxo_block_undo.seq().len()
            ==> (#[trigger] delta.utxo_block_undo.seq()[i].1).wf(),
        delta.accounting_delta.wf(),
        delta.accounting_delta_undo.wf(),
        forall|i: int| 0 <= i < delta.accounting_delta_undo.seq().len()
            ==> (#[trigger] delta.accounting_delta_undo.seq()[i].1).wf(),
        delta.accounting_block_deltas.wf(),
        forall|i: int| 0 <= i < delta.accounting_block_deltas.seq().len()
            ==> (#[trigger] delta.accounting_block_deltas.seq()[i].1).wf(),
        delta.tx_index_cache.data.wf(),
    ensures
        final(db_tx).wf(),
        final(db_tx).base == old(db_tx).base,
        r is Ok ==> final(db_tx)@ == (ChainView {
            utxos: eff_map(old(db_tx)@.utxos, delta.utxo_cache@),
            utxo_undo: old(db_tx)@.utxo_undo.union_prefer_right(
                delta.utxo_block_undo@.map_values(|u: BlockUndo| u@),
            ),
            acc_undo: old(db_tx)@.acc_undo.union_prefer_right(
                delta.accounting_delta_undo@.map_values(|u: crate::accounting::AccountingBlockUndo| u@),
            ),
            acc_deltas: old(db_tx)@.acc_deltas.union_prefer_right(
                delta.accounting_block_deltas@.map_values(|u: crate::accounting::PoSAccountingDeltaData| u@),
            ),
            pool_data: old(db_tx)@.pool_data.union_prefer_right(delta.accounting_delta.created_pools@),
            pool_balances: crate::accounting::spec_sum_merge(
                old(db_tx)@.pool_balances,
                delta.accounting_delta.balance_additions.seq(),
            ),
            tx_index: if delta.tx_index_enabled {
                crate::spend_cache::spec_apply_ops(old(db_tx)@.tx_index, delta.tx_index_cache.data.seq())
            } else {
                old(db_tx)@.tx_index
            },
            ..old(db_tx)@
        }),
{
    flush_utxos(db_tx, delta.utxo_cache);
    flush_utxo_undos(db_tx, delta.utxo_block_undo);
    flush_acc_undos(db_tx, delta.accounting_delta_undo);
    flush_acc_deltas(db_tx, delta.accounting_block_deltas);
    match flush_accounting(db_tx, delta.accounting_delta) {
        Ok(_) => {},
        Err(e) => {
            return Err(e);
        },
    }
    if delta.tx_index_enabled {
        match crate::spend_cache::CachedInputs::flush_to_storage(db_tx, delta.tx_index_cache) {
            Ok(_) => {},
            Err(e) => {
                return Err(ConnectTransactionError::TxIndexError(e));
            },
        }
    }
    Ok(())
}

} // verus!
