//! Network parameters: the genesis block, the schedule of consensus
//! upgrades by height, epoch layout, maturity and fee settings; and
//! the node-local chainstate settings.

use vstd::prelude::*;

use crate::amount::Amount;
use crate::block::{Block, ConsensusData};
use crate::output::{Destination, OutputPurpose, OutputValue, TxOutput};
use crate::primitives::{BlockDistance, Compact, Id, TimeSpan};
use crate::timestamp::BlockTimestamp;
use crate::transaction::{SignedTransaction, Transaction};

verus! {

/// The consensus rule in force from some height on.
#[derive(Debug, Clone, Copy, PartialEq, Eq, Structural)]
pub enum ConsensusUpgrade {
    IgnoreConsensus,
    PoW { initial_difficulty: Compact },
    PoS,
}

/// One entry of the upgrade schedule.
#[derive(Debug, Clone, Copy, PartialEq, Eq, Structural)]
pub enum UpgradeVersion {
    ConsensusUpgrade(ConsensusUpgrade),
}

#[derive(Debug, Clone, Copy, PartialEq, Eq, Structural)]
pub enum NetUpgradesError {
    NoUpgrades,
    FirstUpgradeNotAtGenesis,
    HeightsNotStrictlyIncreasing,
}

/// The per-height schedule of consensus rules. Well-formed when it
/// starts at height zero and heights strictly increase.
#[derive(Debug, Clone)]
pub struct NetUpgrades {
    pub upgrades: Vec<(crate::primitives::BlockHeight, UpgradeVersion)>,
}

/// The rule the schedule puts in force at height `h`: the entry with
/// the greatest height not above `h`.
pub open spec fn spec_upgrade_at(s: Seq<(crate::primitives::BlockHeight, UpgradeVersion)>, h: u64) -> ConsensusUpgrade
    decreases s.len(),
{
    if s.len() == 0 {
        ConsensusUpgrade::IgnoreConsensus
    } else if s.last().0.val <= h {
        match s.last().1 {
            UpgradeVersion::ConsensusUpgrade(c) => c,
        }
    } else {
        spec_upgrade_at(s.drop_last(), h)
    }
}

impl NetUpgrades {
    pub open spec fn wf(self) -> bool {
        &&& self.upgrades@.len() >= 1
        &&& self.upgrades@[0].0.val == 0
        &&& forall|i: int, j: int| 0 <= i < j < self.upgrades@.len()
            ==> #[trigger] self.upgrades@[i].0.val < #[trigger] self.upgrades@[j].0.val
    }

    /// Build a schedule; rejected unless it starts at height zero
    /// with strictly increasing heights.
    pub fn initialize(upgrades: Vec<(crate::primitives::BlockHeight, UpgradeVersion)>) -> (r: Result<
        NetUpgrades,
        NetUpgradesError,
    >)
        ensures
            r matches Ok(u) ==> u.wf() && u.upgrades == upgrades,
            upgrades@.len() == 0 ==> r == Result::<NetUpgrades, NetUpgradesError>::Err(NetUpgradesError::NoUpgrades),
            (upgrades@.len() >= 1 && upgrades@[0].0.val == 0
                && (forall|a: int, b: int| 0 <= a < b < upgrades@.len()
                    ==> #[trigger] upgrades@[a].0.val < #[trigger] upgrades@[b].0.val))
                ==> r is Ok,
    {
        if upgrades.len() == 0 {
            return Err(NetUpgradesError::NoUpgrades);
        }
        if upgrades[0].0.get() != 0 {
            return Err(NetUpgradesError::FirstUpgradeNotAtGenesis);
        }
        let n = upgrades.len();
        let mut i: usize = 1;
        while i < n
            invariant
                1 <= i <= n,
                n == upgrades@.len(),
                forall|a: int, b: int| 0 <= a < b < i
                    ==> #[trigger] upgrades@[a].0.val < #[trigger] upgrades@[b].0.val,
                forall|a: int| 0 <= a < i ==> #[trigger] upgrades@[a].0.val <= upgrades@[i - 1].0.val,
            decreases n - i,
        {
            if upgrades[i].0.get() <= upgrades[i - 1].0.get() {
                return Err(NetUpgradesError::HeightsNotStrictlyIncreasing);
            }
            i = i + 1;
        }
        Ok(NetUpgrades { upgrades })
    }

    /// The rule in force at a height.
    pub fn consensus_upgrade_at_height(&self, height: &crate::primitives::BlockHeight) -> (r: ConsensusUpgrade)
        requires
            self.wf(),
        ensures
            r == spec_upgrade_at(self.upgrades@, height.val),
    {
        let n = self.upgrades.len();
        let mut i: usize = n;
        while i > 0
            invariant
                i <= n,
                n == self.upgrades@.len(),
                self.wf(),
                spec_upgrade_at(self.upgrades@.take(n as int), height.val)
                    == spec_upgrade_at(self.upgrades@.take(i as int), height.val),
                forall|j: int| i <= j < n ==> #[trigger] self.upgrades@[j].0.val > height.val,
            decreases i,
        {
            proof {
                assert(self.upgrades@.take(i as int).last() == self.upgrades@[i - 1]);
                assert(self.upgrades@.take(i as int).drop_last() =~= self.upgrades@.take(i - 1));
            }
            if self.upgrades[i - 1].0.get() <= height.get() {
                proof {
                    assert(self.upgrades@.take(n as int) =~= self.upgrades@);
                }
                match self.upgrades[i - 1].1 {
                    UpgradeVersion::ConsensusUpgrade(c) => {
                        return c;
                    },
                }
            }
            i = i - 1;
        }
        // the first entry sits at height zero, so some entry applies
        proof {
            assert(self.upgrades@[0].0.val > height.val);
            assert(false);
        }
        match self.upgrades[0].1 {
            UpgradeVersion::ConsensusUpgrade(c) => c,
        }
    }
}

/// Read-only network parameters, loaded once.
#[derive(Debug, Clone)]
pub struct ChainConfig {
    pub genesis_block: Block,
    pub genesis_id: Id,
    pub net_upgrades: NetUpgrades,
    pub epoch_length: u64,
    pub sealed_epoch_distance_from_tip: usize,
    pub blockreward_maturity: BlockDistance,
    pub max_future_block_time_offset: TimeSpan,
    pub token_min_issuance_fee: Amount,
    pub base_subsidy: Amount,
    pub initial_randomness: u64,
    pub max_block_size: usize,
}

impl ChainConfig {
    /// Well-formed: the cached genesis id is the genesis block's id,
    /// epochs are nonempty, and the upgrade schedule is sound.
    pub open spec fn wf(self) -> bool {
        &&& self.genesis_id == self.genesis_block.spec_id()
        &&& self.genesis_block.wf()
        &&& self.epoch_length >= 1
        &&& self.net_upgrades.wf()
    }

    pub fn new(
        genesis_block: Block,
        net_upgrades: NetUpgrades,
        epoch_length: u64,
        sealed_epoch_distance_from_tip: usize,
        blockreward_maturity: BlockDistance,
        max_future_block_time_offset: TimeSpan,
        token_min_issuance_fee: Amount,
        base_subsidy: Amount,
        initial_randomness: u64,
        max_block_size: usize,
    ) -> (r: ChainConfig)
        requires
            epoch_length >= 1,
            net_upgrades.wf(),
            genesis_block.wf(),
        ensures
            r.wf(),
            r.genesis_block == genesis_block,
            r.net_upgrades == net_upgrades,
            r.epoch_length == epoch_length,
            r.sealed_epoch_distance_from_tip == sealed_epoch_distance_from_tip,
            r.blockreward_maturity == blockreward_maturity,
            r.max_future_block_time_offset == max_future_block_time_offset,
            r.token_min_issuance_fee == token_min_issuance_fee,
            r.base_subsidy == base_subsidy,
            r.initial_randomness == initial_randomness,
            r.max_block_size == max_block_size,
    {
        let genesis_id = genesis_block.get_id();
        ChainConfig {
            genesis_block,
            genesis_id,
            net_upgrades,
            epoch_length,
            sealed_epoch_distance_from_tip,
            blockreward_maturity,
            max_future_block_time_offset,
            token_min_issuance_fee,
            base_subsidy,
            initial_randomness,
            max_block_size,
        }
    }

    pub fn genesis_block(&self) -> (r: &Block)
        ensures
            r == self.genesis_block,
    {
        &self.genesis_block
    }

    pub fn genesis_block_id(&self) -> (r: Id)
        ensures
            r == self.genesis_id,
    {
        self.genesis_id
    }

    pub fn net_upgrades(&self) -> (r: &NetUpgrades)
        ensures
            r == self.net_upgrades,
    {
        &self.net_upgrades
    }

    pub fn epoch_length(&self) -> (r: u64)
        ensures
            r == self.epoch_length,
    {
        self.epoch_length
    }

    pub fn sealed_epoch_distance_from_tip(&self) -> (r: usize)
        ensures
            r == self.sealed_epoch_distance_from_tip,
    {
        self.sealed_epoch_distance_from_tip
    }

    /// The epoch a height falls in.
    pub fn epoch_index_from_height(&self, height: &crate::primitives::BlockHeight) -> (r: u64)
        requires
            self.wf(),
        ensures
            r == height.val / self.epoch_length,
    {
        height.val / self.epoch_length
    }

    /// Whether a block at this height closes its epoch.
    pub fn is_last_block_in_epoch(&self, height: &crate::primitives::BlockHeight) -> (r: bool)
        requires
            self.wf(),
        ensures
            r == (height.val as int % self.epoch_length as int == self.epoch_length - 1),
    {
        height.get() % self.epoch_length == self.epoch_length - 1
    }

    pub fn blockreward_maturity(&self) -> (r: &BlockDistance)
        ensures
            r == self.blockreward_maturity,
    {
        &self.blockreward_maturity
    }

    pub fn max_future_block_time_offset(&self) -> (r: &TimeSpan)
        ensures
            r == self.max_future_block_time_offset,
    {
        &self.max_future_block_time_offset
    }

    pub fn token_min_issuance_fee(&self) -> (r: Amount)
        ensures
            r == self.token_min_issuance_fee,
    {
        self.token_min_issuance_fee
    }

    /// The subsidy a block at the given height may mint.
    pub fn block_subsidy_at_height(&self, _height: &crate::primitives::BlockHeight) -> (r: Amount)
        ensures
            r == self.base_subsidy,
    {
        self.base_subsidy
    }

    pub fn initial_randomness(&self) -> (r: u64)
        ensures
            r == self.initial_randomness,
    {
        self.initial_randomness
    }

    pub fn max_block_size(&self) -> (r: usize)
        ensures
            r == self.max_block_size,
    {
        self.max_block_size
    }
}

/// The premine placed in the unit-test genesis block.
pub const UNIT_TEST_PREMINE_ATOMS: u128 = 100000000000000;

/// A configuration for unit tests: one upgrade ignoring consensus, a
/// genesis carrying a single anyone-can-spend premine transaction.
pub fn create_unit_test_config() -> (r: ChainConfig)
    ensures
        r.wf(),
        spec_upgrade_at(r.net_upgrades.upgrades@, 0) == ConsensusUpgrade::IgnoreConsensus,
        r.genesis_block.transactions@.len() == 1,
{
    let premine_tx = Transaction {
        flags: 0,
        inputs: Vec::new(),
        outputs: vec![TxOutput::new(
            OutputValue::Coin(Amount::from_atoms(UNIT_TEST_PREMINE_ATOMS)),
            OutputPurpose::Transfer(Destination::AnyoneCanSpend),
        )],
        lock_time: 0,
    };
    let signed = SignedTransaction { transaction: premine_tx, signatures: Vec::new() };
    let genesis = match Block::new(
        vec![signed],
        Id::new(0),
        BlockTimestamp::from_int_seconds(1639975460),
        ConsensusData::NoConsensus,
    ) {
        Ok(b) => b,
        Err(_) => {
            proof {
                assert(false);
            }
            Block {
                header: crate::block::BlockHeader {
                    prev_block_id: Id::new(0),
                    body_root: 0,
                    timestamp: BlockTimestamp::from_int_seconds(0),
                    consensus_data: ConsensusData::NoConsensus,
                },
                transactions: Vec::new(),
            }
        },
    };
    let upgrades = vec![
        (
            crate::primitives::BlockHeight::new(0),
            UpgradeVersion::ConsensusUpgrade(ConsensusUpgrade::IgnoreConsensus),
        ),
    ];
    let net_upgrades = match NetUpgrades::initialize(upgrades) {
        Ok(u) => u,
        Err(_) => {
            proof {
                assert(false);
            }
            NetUpgrades { upgrades: Vec::new() }
        },
    };
    proof {
        assert(net_upgrades.upgrades@.len() == 1);
        assert(net_upgrades.upgrades@.last() == net_upgrades.upgrades@[0]);
    }
    ChainConfig::new(
        genesis,
        net_upgrades,
        5,
        2,
        BlockDistance::new(0),
        TimeSpan::from_secs(120),
        Amount::from_atoms(100),
        Amount::from_atoms(0),
        0x0badc0ffee,
        1000000,
    )
}

/// A configuration for unit tests with a chosen upgrade schedule.
pub fn create_config_with_net_upgrades(net_upgrades: NetUpgrades) -> (r: ChainConfig)
    requires
        net_upgrades.wf(),
    ensures
        r.wf(),
        r.net_upgrades == net_upgrades,
        r.genesis_block.transactions@.len() == 1,
{
    let base = create_unit_test_config();
    ChainConfig::new(
        base.genesis_block,
        net_upgrades,
        5,
        2,
        BlockDistance::new(0),
        TimeSpan::from_secs(120),
        Amount::from_atoms(100),
        Amount::from_atoms(0),
        0x0badc0ffee,
        1000000,
    )
}

/// Node-local settings of the chainstate subsystem.
#[derive(Debug, Clone, Copy, PartialEq, Eq, Structural)]
pub struct ChainstateConfig {
    pub max_db_commit_attempts: usize,
    pub max_orphan_blocks: usize,
    pub tx_index_enabled: bool,
    pub max_tip_age: TimeSpan,
}

impl ChainstateConfig {
    pub fn new() -> (r: ChainstateConfig)
        ensures
            r.max_db_commit_attempts == 10,
            r.max_orphan_blocks == 512,
            r.tx_index_enabled == true,
            r.max_tip_age.secs == 86400,
    {
        ChainstateConfig {
            max_db_commit_attempts: 10,
            max_orphan_blocks: 512,
            tx_index_enabled: true,
            max_tip_age: TimeSpan::from_secs(86400),
        }
    }
}

} // verus!
