//! Proof-of-stake accounting: pool balances and pool declarations,
//! kept as additive, invertible deltas so that per-block changes can
//! be undone exactly and merged into sealed epochs.

use vstd::prelude::*;

use crate::amount::Amount;
use crate::collections::UMap;
use crate::hashing::{absorb, DefaultHashAlgoStream, HashWords, HASH_STREAM_INIT};
use crate::output::StakePoolData;
use crate::primitives::{Id, OutPoint};

verus! {

#[derive(Debug, Clone, Copy, PartialEq, Eq, Structural)]
pub enum AccountingError {
    PoolAlreadyExists,
    PoolDataNotFound,
    PoolBalanceNotFound,
    PoolBalanceAdditionError,
    PoolBalanceSubtractionError,
    DelegationSharesAdditionError,
    InvariantErrorDelegationSharesMoreThanPoolBalance,
    DeltaMergeAdditionError,
    UndoMismatch,
}

/// Randomness sealed for one epoch.
#[derive(Debug, Clone, Copy, PartialEq, Eq, Structural)]
pub struct EpochData {
    pub randomness: u64,
}

impl EpochData {
    pub fn new(randomness: u64) -> (r: EpochData)
        ensures
            r.randomness == randomness,
    {
        EpochData { randomness }
    }

    pub fn randomness(&self) -> (r: u64)
        ensures
            r == self.randomness,
    {
        self.randomness
    }
}

/// One reversible accounting operation, recorded when applied.
#[derive(Debug, Clone, Copy, PartialEq, Eq, Structural)]
pub enum PoSAccountingUndo {
    CreatePool { pool_id: Id, pledge: Amount },
    IncreasePoolBalance { pool_id: Id, amount: Amount },
}

/// The undo data of one transaction's accounting effects, reversed in
/// reverse order of application.
#[derive(Debug, Clone)]
pub struct AccountingTxUndo {
    pub ops: Vec<PoSAccountingUndo>,
}

impl AccountingTxUndo {
    pub fn new(ops: Vec<PoSAccountingUndo>) -> (r: AccountingTxUndo)
        ensures
            r.ops == ops,
    {
        AccountingTxUndo { ops }
    }

    pub fn into_inner(self) -> (r: Vec<PoSAccountingUndo>)
        ensures
            r == self.ops,
    {
        self.ops
    }
}

/// The undo data of a block reward's accounting effects.
#[derive(Debug, Clone)]
pub struct AccountingBlockRewardUndo {
    pub ops: Vec<PoSAccountingUndo>,
}

impl AccountingBlockRewardUndo {
    pub fn new(ops: Vec<PoSAccountingUndo>) -> (r: AccountingBlockRewardUndo)
        ensures
            r.ops == ops,
    {
        AccountingBlockRewardUndo { ops }
    }

    pub fn into_inner(self) -> (r: Vec<PoSAccountingUndo>)
        ensures
            r == self.ops,
    {
        self.ops
    }
}

/// Copy a vector of accounting operations.
pub fn dup_undo_ops(v: &Vec<PoSAccountingUndo>) -> (r: Vec<PoSAccountingUndo>)
    ensures
        r@ == v@,
{
    let mut out: Vec<PoSAccountingUndo> = Vec::new();
    let n = v.len();
    for i in 0..n
        invariant
            n == v@.len(),
            out@ =~= v@.take(i as int),
    {
        out.push(v[i]);
        proof {
            assert(out@ =~= v@.take(i + 1));
        }
    }
    proof {
        assert(v@.take(n as int) =~= v@);
    }
    out
}

/// Accounting undo of one block: per-transaction undo records and the
/// reward's.
#[derive(Debug, Clone)]
pub struct AccountingBlockUndo {
    pub tx_undos: UMap<AccountingTxUndo>,
    pub reward_undo: Option<AccountingBlockRewardUndo>,
}

/// The content view of a block's accounting undo.
pub ghost struct AccountingBlockUndoV {
    pub tx_undos: Map<u128, Seq<PoSAccountingUndo>>,
    pub reward_undo: Option<Seq<PoSAccountingUndo>>,
}

impl View for AccountingBlockUndo {
    type V = AccountingBlockUndoV;

    open spec fn view(&self) -> AccountingBlockUndoV {
        AccountingBlockUndoV {
            tx_undos: self.tx_undos@.map_values(|u: AccountingTxUndo| u.ops@),
            reward_undo: match self.reward_undo {
                Some(ru) => Some(ru.ops@),
                None => None,
            },
        }
    }
}

impl AccountingBlockUndo {
    pub open spec fn wf(self) -> bool {
        self.tx_undos.wf()
    }

    /// An owned copy with the same content.
    pub fn duplicate(&self) -> (r: AccountingBlockUndo)
        requires
            self.wf(),
        ensures
            r.wf(),
            r@ == self@,
            r.tx_undos.seq().len() == self.tx_undos.seq().len(),
            forall|i: int| 0 <= i < self.tx_undos.seq().len()
                ==> #[trigger] r.tx_undos.seq()[i].0 == self.tx_undos.seq()[i].0,
            forall|i: int| 0 <= i < self.tx_undos.seq().len()
                ==> #[trigger] r.tx_undos.seq()[i].1.ops@ == self.tx_undos.seq()[i].1.ops@,
    {
        let mut entries: Vec<(u128, AccountingTxUndo)> = Vec::new();
        let n = self.tx_undos.len();
        let mut i: usize = 0;
        while i < n
            invariant
                i <= n,
                n == self.tx_undos.seq().len(),
                self.wf(),
                entries@.len() == i,
                forall|j: int| 0 <= j < i ==> #[trigger] entries@[j].0 == self.tx_undos.seq()[j].0,
                forall|j: int| 0 <= j < i ==> #[trigger] entries@[j].1.ops@ == self.tx_undos.seq()[j].1.ops@,
            decreases n - i,
        {
            let entry = self.tx_undos.entry_at(i);
            let key = entry.0;
            let val = AccountingTxUndo { ops: dup_undo_ops(&entry.1.ops) };
            entries.push((key, val));
            proof {
                assert(entries@[i as int] == (key, val));
                assert(entries@[i as int].0 == self.tx_undos.seq()[i as int].0);
                assert(entries@[i as int].1.ops@ == self.tx_undos.seq()[i as int].1.ops@);
            }
            i = i + 1;
        }
        let tx_undos = crate::collections::UMap { entries };
        let reward_undo = match &self.reward_undo {
            Some(ru) => Some(AccountingBlockRewardUndo { ops: dup_undo_ops(&ru.ops) }),
            None => None,
        };
        let r = AccountingBlockUndo { tx_undos, reward_undo };
        proof {
            assert(r.wf());
            crate::collections::lemma_as_map_map_values(
                r.tx_undos.seq(),
                self.tx_undos.seq(),
                |u: AccountingTxUndo| u.ops@,
            );
            assert(r@.tx_undos =~= self@.tx_undos);
            assert(r@ == self@);
        }
        r
    }

    pub fn new() -> (r: AccountingBlockUndo)
        ensures
            r.wf(),
            r.tx_undos@ == Map::<u128, AccountingTxUndo>::empty(),
            r.reward_undo is None,
    {
        AccountingBlockUndo { tx_undos: UMap::new(), reward_undo: None }
    }

    pub fn insert_tx_undo(&mut self, tx_id: Id, undo: AccountingTxUndo)
        requires
            old(self).wf(),
        ensures
            final(self).wf(),
            final(self).tx_undos@ == old(self).tx_undos@.insert(tx_id.value as u128, undo),
            final(self).reward_undo == old(self).reward_undo,
    {
        self.tx_undos.insert(tx_id.value as u128, undo);
    }

    pub fn take_tx_undo(&mut self, tx_id: Id) -> (r: Option<AccountingTxUndo>)
        requires
            old(self).wf(),
        ensures
            final(self).wf(),
            final(self).tx_undos@ == old(self).tx_undos@.remove(tx_id.value as u128),
            r is Some <==> old(self).tx_undos@.contains_key(tx_id.value as u128),
            r matches Some(u) ==> u == old(self).tx_undos@[tx_id.value as u128],
            final(self).reward_undo == old(self).reward_undo,
    {
        self.tx_undos.remove(tx_id.value as u128)
    }

    pub fn set_reward_undo(&mut self, undo: AccountingBlockRewardUndo)
        ensures
            final(self).reward_undo == Some(undo),
            final(self).tx_undos == old(self).tx_undos,
    {
        self.reward_undo = Some(undo);
    }

    pub fn take_reward_undo(&mut self) -> (r: Option<AccountingBlockRewardUndo>)
        ensures
            r == old(self).reward_undo,
            final(self).reward_undo is None,
            final(self).tx_undos == old(self).tx_undos,
    {
        self.reward_undo.take()
    }

    pub fn is_empty(&self) -> (r: bool)
        requires
            self.wf(),
        ensures
            r == (self.tx_undos.seq().len() == 0 && self.reward_undo is None),
    {
        self.tx_undos.len() == 0 && self.reward_undo.is_none()
    }
}

/// An accounting delta: pools created and balance changes, mergeable
/// with later deltas and invertible through undo records.
#[derive(Debug, Clone)]
pub struct PoSAccountingDeltaData {
    /// Pools created by this delta.
    pub created_pools: UMap<StakePoolData>,
    /// Balance added per pool by this delta.
    pub balance_additions: UMap<Amount>,
}

/// The content view of an accounting delta.
pub ghost struct AccountingDeltaV {
    pub created_pools: Map<u128, StakePoolData>,
    pub balance_additions: Map<u128, Amount>,
}

impl View for PoSAccountingDeltaData {
    type V = AccountingDeltaV;

    open spec fn view(&self) -> AccountingDeltaV {
        AccountingDeltaV {
            created_pools: self.created_pools@,
            balance_additions: self.balance_additions@,
        }
    }
}

impl PoSAccountingDeltaData {
    pub open spec fn wf(self) -> bool {
        self.created_pools.wf() && self.balance_additions.wf()
    }

    /// An owned copy; all entries are plain values.
    pub fn duplicate(&self) -> (r: PoSAccountingDeltaData)
        requires
            self.wf(),
        ensures
            r.wf(),
            r@ == self@,
    {
        PoSAccountingDeltaData {
            created_pools: self.created_pools.duplicate(),
            balance_additions: self.balance_additions.duplicate(),
        }
    }

    pub fn new() -> (r: PoSAccountingDeltaData)
        ensures
            r.wf(),
            r.created_pools@ == Map::<u128, StakePoolData>::empty(),
            r.balance_additions@ == Map::<u128, Amount>::empty(),
    {
        PoSAccountingDeltaData { created_pools: UMap::new(), balance_additions: UMap::new() }
    }

    /// Record a pool creation; the pool must be new to this delta.
    pub fn add_pool(&mut self, pool_id: Id, data: StakePoolData) -> (r: Result<(), AccountingError>)
        requires
            old(self).wf(),
        ensures
            final(self).wf(),
            !old(self).created_pools@.contains_key(pool_id.value as u128) ==> (
                r is Ok
                && final(self).created_pools@ == old(self).created_pools@.insert(pool_id.value as u128, data)
                && final(self).balance_additions == old(self).balance_additions
            ),
            old(self).created_pools@.contains_key(pool_id.value as u128) ==> (
                r == Result::<(), AccountingError>::Err(AccountingError::PoolAlreadyExists)
                && *final(self) == *old(self)
            ),
    {
        if self.created_pools.contains_key(pool_id.value as u128) {
            return Err(AccountingError::PoolAlreadyExists);
        }
        self.created_pools.insert(pool_id.value as u128, data);
        Ok(())
    }

    /// Remove a recorded pool creation, when undoing it.
    pub fn remove_pool(&mut self, pool_id: Id) -> (r: Result<(), AccountingError>)
        requires
            old(self).wf(),
        ensures
            final(self).wf(),
            old(self).created_pools@.contains_key(pool_id.value as u128) ==> (
                r is Ok
                && final(self).created_pools@ == old(self).created_pools@.remove(pool_id.value as u128)
                && final(self).balance_additions == old(self).balance_additions
            ),
            !old(self).created_pools@.contains_key(pool_id.value as u128) ==> (
                r == Result::<(), AccountingError>::Err(AccountingError::PoolDataNotFound)
                && *final(self) == *old(self)
            ),
    {
        if !self.created_pools.contains_key(pool_id.value as u128) {
            return Err(AccountingError::PoolDataNotFound);
        }
        self.created_pools.remove(pool_id.value as u128);
        Ok(())
    }

    /// Add to a pool's balance change.
    pub fn add_balance(&mut self, pool_id: Id, amount: Amount) -> (r: Result<(), AccountingError>)
        requires
            old(self).wf(),
        ensures
            final(self).wf(),
            ({
                let prior: int = if old(self).balance_additions@.contains_key(pool_id.value as u128) {
                    old(self).balance_additions@[pool_id.value as u128]@
                } else {
                    0
                };
                &&& (prior + amount@ <= u128::MAX ==> (
                    r is Ok
                    && final(self).balance_additions@ == old(self).balance_additions@.insert(
                        pool_id.value as u128,
                        Amount { atoms: (prior + amount@) as u128 },
                    )
                    && final(self).created_pools == old(self).created_pools
                ))
                &&& (prior + amount@ > u128::MAX ==> (
                    r == Result::<(), AccountingError>::Err(AccountingError::PoolBalanceAdditionError)
                    && *final(self) == *old(self)
                ))
            }),
    {
        let prior = match self.balance_additions.get(pool_id.value as u128) {
            Some(a) => *a,
            None => Amount::from_atoms(0),
        };
        match prior.add(amount) {
            Some(total) => {
                self.balance_additions.insert(pool_id.value as u128, total);
                Ok(())
            },
            None => Err(AccountingError::PoolBalanceAdditionError),
        }
    }

    /// Subtract from a pool's balance change, when undoing.
    pub fn sub_balance(&mut self, pool_id: Id, amount: Amount) -> (r: Result<(), AccountingError>)
        requires
            old(self).wf(),
        ensures
            final(self).wf(),
            ({
                let prior: int = if old(self).balance_additions@.contains_key(pool_id.value as u128) {
                    old(self).balance_additions@[pool_id.value as u128]@
                } else {
                    0
                };
                &&& (prior >= amount@ ==> (
                    r is Ok
                    && final(self).balance_additions@ == old(self).balance_additions@.insert(
                        pool_id.value as u128,
                        Amount { atoms: (prior - amount@) as u128 },
                    )
                    && final(self).created_pools == old(self).created_pools
                ))
                &&& (prior < amount@ ==> (
                    r == Result::<(), AccountingError>::Err(AccountingError::PoolBalanceSubtractionError)
                    && *final(self) == *old(self)
                ))
            }),
    {
        let prior = match self.balance_additions.get(pool_id.value as u128) {
            Some(a) => *a,
            None => Amount::from_atoms(0),
        };
        match prior.sub(amount) {
            Some(rest) => {
                self.balance_additions.insert(pool_id.value as u128, rest);
                Ok(())
            },
            None => Err(AccountingError::PoolBalanceSubtractionError),
        }
    }

    /// Merge a later delta into this one: pool creations accumulate,
    /// balance changes add up.
    pub fn merge_with_delta(&mut self, other: PoSAccountingDeltaData) -> (r: Result<(), AccountingError>)
        requires
            old(self).wf(),
            other.wf(),
        ensures
            final(self).wf(),
            r is Ok ==> final(self).created_pools@
                == old(self).created_pools@.union_prefer_right(other.created_pools@),
            r is Ok ==> final(self).balance_additions@
                == spec_sum_merge(old(self).balance_additions@, other.balance_additions.seq()),
            // fresh balance keys cannot overflow, so merging them is owed
            (forall|i: int| 0 <= i < other.balance_additions.seq().len()
                ==> !old(self).balance_additions@.contains_key(
                    (#[trigger] other.balance_additions.seq()[i]).0,
                )) ==> r is Ok,
    {
        let n = other.created_pools.len();
        let mut i: usize = 0;
        while i < n
            invariant
                i <= n,
                self.created_pools.wf(),
                self.balance_additions.wf(),
                other.created_pools.wf(),
                n == other.created_pools.seq().len(),
                self.created_pools@ == old(self).created_pools@.union_prefer_right(
                    crate::collections::entries_as_map(other.created_pools.seq().take(i as int)),
                ),
                self.balance_additions == old(self).balance_additions,
            decreases n - i,
        {
            proof {
                assert(other.created_pools.seq().take(i + 1).drop_last()
                    =~= other.created_pools.seq().take(i as int));
                assert(other.created_pools.seq().take(i + 1).last() == other.created_pools.seq()[i as int]);
            }
            let entry = other.created_pools.entry_at(i);
            let key = entry.0;
            let val = entry.1;
            self.created_pools.insert(key, val);
            proof {
                assert(self.created_pools@ =~= old(self).created_pools@.union_prefer_right(
                    crate::collections::entries_as_map(other.created_pools.seq().take(i + 1)),
                ));
            }
            i = i + 1;
        }
        proof {
            assert(other.created_pools.seq().take(n as int) =~= other.created_pools.seq());
        }
        let m = other.balance_additions.len();
        let mut j: usize = 0;
        while j < m
            invariant
                j <= m,
                self.created_pools.wf(),
                self.balance_additions.wf(),
                other.balance_additions.wf(),
                m == other.balance_additions.seq().len(),
                self.created_pools@ == old(self).created_pools@.union_prefer_right(other.created_pools@),
                self.balance_additions@
                    == spec_sum_merge(old(self).balance_additions@, other.balance_additions.seq().take(j as int)),
                (forall|i: int| 0 <= i < m ==> !old(self).balance_additions@.contains_key(
                    (#[trigger] other.balance_additions.seq()[i]).0,
                )) ==> forall|i: int| j <= i < m ==> !self.balance_additions@.contains_key(
                    (#[trigger] other.balance_additions.seq()[i]).0,
                ),
            decreases m - j,
        {
            proof {
                assert(other.balance_additions.seq().take(j + 1).drop_last()
                    =~= other.balance_additions.seq().take(j as int));
                assert(other.balance_additions.seq().take(j + 1).last()
                    == other.balance_additions.seq()[j as int]);
            }
            let entry = other.balance_additions.entry_at(j);
            let key = entry.0;
            let amount = entry.1;
            let prior = match self.balance_additions.get(key) {
                Some(a) => *a,
                None => Amount::from_atoms(0),
            };
            match prior.add(amount) {
                Some(total) => {
                    self.balance_additions.insert(key, total);
                },
                None => {
                    return Err(AccountingError::DeltaMergeAdditionError);
                },
            }
            proof {
                assert forall|i: int| j + 1 <= i < m
                    && (forall|i2: int| 0 <= i2 < m ==> !old(self).balance_additions@.contains_key(
                        (#[trigger] other.balance_additions.seq()[i2]).0,
                    ))
                    implies !self.balance_additions@.contains_key(
                    (#[trigger] other.balance_additions.seq()[i]).0,
                ) by {
                    other.balance_additions.lemma_view_facts();
                    assert(other.balance_additions.seq()[i].0 != key);
                }
            }
            j = j + 1;
        }
        proof {
            assert(other.balance_additions.seq().take(m as int) =~= other.balance_additions.seq());
        }
        Ok(())
    }
}

/// Balance maps summed entrywise; a sum that does not fit truncates,
/// which the merging function rules out by failing instead.
pub open spec fn spec_sum_merge(a: Map<u128, Amount>, s: Seq<(u128, Amount)>) -> Map<u128, Amount>
    decreases s.len(),
{
    if s.len() == 0 {
        a
    } else {
        let m = spec_sum_merge(a, s.drop_last());
        let prior: int = if m.contains_key(s.last().0) { m[s.last().0]@ } else { 0 };
        m.insert(s.last().0, Amount { atoms: (prior + s.last().1@) as u128 })
    }
}

/// An arbitrary tag mixed into pool-id derivation, so that pool and
/// delegation ids from the same outpoint differ.
pub fn pool_id_preimage_suffix() -> (r: u32)
    ensures
        r == 0,
{
    0
}

/// The tag mixed into delegation-id derivation.
pub fn delegation_id_preimage_suffix() -> (r: u32)
    ensures
        r == 1,
{
    1
}

/// The id of a pool created by a transaction: the digest of its first
/// input's outpoint and the pool tag.
pub open spec fn spec_make_pool_id(outpoint: OutPoint) -> Id {
    Id {
        value: crate::hashing::mix64(
            absorb(HASH_STREAM_INIT, outpoint.words()),
            0u64,
        ),
    }
}

pub fn make_pool_id(input0_outpoint: &OutPoint) -> (r: Id)
    ensures
        r == spec_make_pool_id(*input0_outpoint),
{
    let mut hasher = DefaultHashAlgoStream::new();
    input0_outpoint.hash_into(&mut hasher);
    hasher.write_u32(pool_id_preimage_suffix());
    Id::new(hasher.finalize())
}

/// The id of a delegation created by a transaction.
pub open spec fn spec_make_delegation_id(outpoint: OutPoint) -> Id {
    Id {
        value: crate::hashing::mix64(
            absorb(HASH_STREAM_INIT, outpoint.words()),
            1u64,
        ),
    }
}

pub fn make_delegation_id(input0_outpoint: &OutPoint) -> (r: Id)
    ensures
        r == spec_make_delegation_id(*input0_outpoint),
{
    let mut hasher = DefaultHashAlgoStream::new();
    input0_outpoint.hash_into(&mut hasher);
    hasher.write_u32(delegation_id_preimage_suffix());
    Id::new(hasher.finalize())
}

/// Sum of the delegation shares recorded for one pool; share keys
/// carry the pool id in their upper half.
pub open spec fn pool_shares_sum(s: Seq<(u128, Amount)>, pool: Id) -> int
    decreases s.len(),
{
    if s.len() == 0 {
        0
    } else {
        pool_shares_sum(s.drop_last(), pool)
            + if s.last().0 >> 64 == pool.value as u128 { s.last().1@ } else { 0 }
    }
}

/// The key a delegation share is stored under.
pub open spec fn spec_share_key(pool: Id, delegation: Id) -> u128 {
    ((pool.value as u128) << 64) | (delegation.value as u128)
}

pub fn share_key(pool: Id, delegation: Id) -> (r: u128)
    ensures
        r == spec_share_key(pool, delegation),
{
    ((pool.value as u128) << 64u128) | (delegation.value as u128)
}

/// The staker's own balance of a pool: the pool balance minus every
/// delegated share. `None` when the pool is unknown; an error when
/// the shares exceed the balance or their sum overflows.
pub fn calculate_staker_balance(
    pool_balances: &UMap<Amount>,
    delegation_shares: &UMap<Amount>,
    pool_id: Id,
) -> (r: Result<Option<Amount>, AccountingError>)
    requires
        pool_balances.wf(),
        delegation_shares.wf(),
    ensures
        !pool_balances@.contains_key(pool_id.value as u128)
            ==> r == Result::<Option<Amount>, AccountingError>::Ok(None),
        pool_balances@.contains_key(pool_id.value as u128) ==> {
            let balance = pool_balances@[pool_id.value as u128]@;
            let total = pool_shares_sum(delegation_shares.seq(), pool_id);
            &&& (total > u128::MAX ==> r == Result::<Option<Amount>, AccountingError>::Err(
                AccountingError::DelegationSharesAdditionError,
            ))
            &&& (total <= u128::MAX && total > balance ==> r == Result::<Option<Amount>, AccountingError>::Err(
                AccountingError::InvariantErrorDelegationSharesMoreThanPoolBalance,
            ))
            &&& (total <= balance ==> r == Result::<Option<Amount>, AccountingError>::Ok(Some(
                Amount { atoms: (balance - total) as u128 },
            )))
        },
{
    let balance = match pool_balances.get(pool_id.value as u128) {
        Some(b) => *b,
        None => {
            return Ok(None);
        },
    };
    let n = delegation_shares.len();
    let mut total = Amount::from_atoms(0);
    let mut i: usize = 0;
    while i < n
        invariant
            i <= n,
            delegation_shares.wf(),
            pool_balances.wf(),
            n == delegation_shares.seq().len(),
            total@ == pool_shares_sum(delegation_shares.seq().take(i as int), pool_id),
            pool_balances@.contains_key(pool_id.value as u128),
            balance == pool_balances@[pool_id.value as u128],
        decreases n - i,
    {
        proof {
            assert(delegation_shares.seq().take(i + 1).drop_last()
                =~= delegation_shares.seq().take(i as int));
            assert(delegation_shares.seq().take(i + 1).last() == delegation_shares.seq()[i as int]);
        }
        let entry = delegation_shares.entry_at(i);
        if (entry.0 >> 64u128) == pool_id.value as u128 {
            match total.add(entry.1) {
                Some(t) => {
                    total = t;
                },
                None => {
                    proof {
                        lemma_pool_shares_sum_mono(delegation_shares.seq(), i + 1, pool_id);
                    }
                    return Err(AccountingError::DelegationSharesAdditionError);
                },
            }
        }
        i = i + 1;
    }
    proof {
        assert(delegation_shares.seq().take(n as int) =~= delegation_shares.seq());
    }
    match balance.sub(total) {
        Some(rest) => Ok(Some(rest)),
        None => Err(AccountingError::InvariantErrorDelegationSharesMoreThanPoolBalance),
    }
}

/// Prefix sums of shares never exceed the total.
pub proof fn lemma_pool_shares_sum_mono(s: Seq<(u128, Amount)>, n: int, pool: Id)
    requires
        0 <= n <= s.len(),
    ensures
        pool_shares_sum(s.take(n), pool) <= pool_shares_sum(s, pool),
    decreases s.len() - n,
{
    if n == s.len() {
        assert(s.take(n) =~= s);
    } else {
        assert(s.take(n + 1).drop_last() =~= s.take(n));
        assert(s.take(n + 1).last() == s[n]);
        lemma_pool_shares_sum_mono(s, n + 1, pool);
    }
}

} // verus!
