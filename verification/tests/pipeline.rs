use chaincore::block::{Block, ConsensusData, PoWData};
use chaincore::chainstate::{BlockSource, Chainstate, ChainstateEvent};
use chaincore::config::{
    create_config_with_net_upgrades, create_unit_test_config, ChainstateConfig, ConsensusUpgrade,
    NetUpgrades, UpgradeVersion,
};
use chaincore::consensus::mine;
use chaincore::primitives::{BlockHeight, Compact, Id, TimeSpan};
use chaincore::storage::Store;
use chaincore::timestamp::BlockTimestamp;

const GENESIS_TS: u32 = 1639975460;

fn fresh_chainstate() -> Chainstate {
    let config = create_unit_test_config();
    let store = Store::new_empty().unwrap();
    Chainstate::new(
        config,
        ChainstateConfig::new(),
        store,
        TimeSpan::from_secs(GENESIS_TS as u64 + 1000),
    )
    .unwrap()
}

fn empty_block(prev: Id, seconds: u32) -> Block {
    Block::new(
        Vec::new(),
        prev,
        BlockTimestamp::from_int_seconds(seconds),
        ConsensusData::NoConsensus,
    )
    .unwrap()
}

#[test]
fn orphan_then_parent_connects_in_order() {
    let mut chainstate = fresh_chainstate();
    let genesis_id = chainstate.chain_config().genesis_block_id();

    let b1 = empty_block(genesis_id, GENESIS_TS + 10);
    let b2 = empty_block(b1.get_id(), GENESIS_TS + 20);

    // the child arrives first: buffered, not an acceptance, nothing
    // reflected in chain state
    let r = chainstate.process_block(b2.clone(), BlockSource::Peer);
    assert!(r.is_err());
    assert_eq!(chainstate.orphan_blocks_pool().len(), 1);
    assert!(chainstate.events_controller().events().is_empty());

    // the parent arrives: both connect, and the single tip event
    // names the final, highest block
    let r = chainstate.process_block(b1.clone(), BlockSource::Local).unwrap().unwrap();
    assert_eq!(r.block_id().get(), b2.get_id().get());
    assert_eq!(r.block_height(), BlockHeight::new(2));
    assert_eq!(chainstate.orphan_blocks_pool().len(), 0);
    let events = chainstate.events_controller().events();
    assert_eq!(events.len(), 1);
    assert_eq!(
        events[0],
        ChainstateEvent::NewTip(b2.get_id(), BlockHeight::new(2))
    );
}

#[test]
fn equal_trust_keeps_first_seen_tip() {
    let mut chainstate = fresh_chainstate();
    let genesis_id = chainstate.chain_config().genesis_block_id();

    let first = empty_block(genesis_id, GENESIS_TS + 10);
    let second = empty_block(genesis_id, GENESIS_TS + 11);
    assert_ne!(first.get_id().get(), second.get_id().get());

    let r = chainstate.process_block(first.clone(), BlockSource::Local).unwrap();
    assert_eq!(r.unwrap().block_id().get(), first.get_id().get());

    // an equal-trust sibling is accepted but never displaces the tip
    let r = chainstate.process_block(second.clone(), BlockSource::Local).unwrap();
    assert!(r.is_none());
    let events = chainstate.events_controller().events();
    assert_eq!(events.len(), 1);
    assert_eq!(
        events[0],
        ChainstateEvent::NewTip(first.get_id(), BlockHeight::new(1))
    );
}

#[test]
fn higher_trust_branch_reorgs() {
    let mut chainstate = fresh_chainstate();
    let genesis_id = chainstate.chain_config().genesis_block_id();

    let a1 = empty_block(genesis_id, GENESIS_TS + 10);
    chainstate.process_block(a1.clone(), BlockSource::Local).unwrap().unwrap();

    // a two-block branch from the genesis overtakes the single block
    let b1 = empty_block(genesis_id, GENESIS_TS + 12);
    let b2 = empty_block(b1.get_id(), GENESIS_TS + 22);
    let r = chainstate.process_block(b1.clone(), BlockSource::Local).unwrap();
    assert!(r.is_none(), "equal trust must not reorg");
    let r = chainstate.process_block(b2.clone(), BlockSource::Local).unwrap().unwrap();
    assert_eq!(r.block_id().get(), b2.get_id().get());
    assert_eq!(r.block_height(), BlockHeight::new(2));
}

#[test]
fn consensus_type_schedule_is_enforced() {
    let upgrades = vec![
        (
            BlockHeight::new(0),
            UpgradeVersion::ConsensusUpgrade(ConsensusUpgrade::IgnoreConsensus),
        ),
        (
            BlockHeight::new(2),
            UpgradeVersion::ConsensusUpgrade(ConsensusUpgrade::PoW {
                initial_difficulty: Compact::from_target(u128::MAX),
            }),
        ),
    ];
    let net_upgrades = NetUpgrades::initialize(upgrades).unwrap();
    let config = create_config_with_net_upgrades(net_upgrades);
    let genesis_id = config.genesis_block_id();
    let store = Store::new_empty().unwrap();
    let mut chainstate = Chainstate::new(
        config,
        ChainstateConfig::new(),
        store,
        TimeSpan::from_secs(GENESIS_TS as u64 + 1000),
    )
    .unwrap();

    // height 1 ignores consensus: plain data accepted, work rejected
    let pow_at_1 = Block::new(
        Vec::new(),
        genesis_id,
        BlockTimestamp::from_int_seconds(GENESIS_TS + 5),
        ConsensusData::PoW(PoWData::new(Compact::new(0), 0, Vec::new())),
    )
    .unwrap();
    assert!(chainstate.process_block(pow_at_1, BlockSource::Local).is_err());

    let b1 = empty_block(genesis_id, GENESIS_TS + 10);
    chainstate.process_block(b1.clone(), BlockSource::Local).unwrap().unwrap();

    // height 2 demands work: plain data is a consensus-type mismatch
    let plain_at_2 = empty_block(b1.get_id(), GENESIS_TS + 20);
    assert!(chainstate.process_block(plain_at_2, BlockSource::Local).is_err());

    // a correctly mined block at height 2 is accepted
    let mut mined = Block::new(
        Vec::new(),
        b1.get_id(),
        BlockTimestamp::from_int_seconds(GENESIS_TS + 21),
        ConsensusData::NoConsensus,
    )
    .unwrap();
    let found = mine(&mut mined, u128::MAX, Compact::from_target(u128::MAX), Vec::new()).unwrap();
    assert!(found);
    let r = chainstate.process_block(mined.clone(), BlockSource::Local).unwrap().unwrap();
    assert_eq!(r.block_id().get(), mined.get_id().get());
    assert_eq!(r.block_height(), BlockHeight::new(2));
}
