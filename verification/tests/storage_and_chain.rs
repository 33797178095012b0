use chaincore::amount::Amount;
use chaincore::block::{Block, ConsensusData};
use chaincore::chainstate::Chainstate;
use chaincore::config::create_unit_test_config;
use chaincore::index::{SpendablePosition, TxMainChainIndex, TxMainChainPosition};
use chaincore::output::{Destination, OutputPurpose, OutputValue, TxOutput};
use chaincore::primitives::{BlockHeight, Id, OutPointSourceId};
use chaincore::storage::Store;
use chaincore::timestamp::BlockTimestamp;
use chaincore::transaction::{SignedTransaction, Transaction};

fn make_tx(flags: u32, lock_time: u32) -> SignedTransaction {
    let tx = Transaction::new(flags, Vec::new(), vec![simple_output(100)], lock_time).unwrap();
    SignedTransaction::new(tx, Vec::new()).unwrap()
}

fn simple_output(atoms: u128) -> TxOutput {
    TxOutput::new(
        OutputValue::Coin(Amount::from_atoms(atoms)),
        OutputPurpose::Transfer(Destination::AnyoneCanSpend),
    )
}

fn make_block(txs: Vec<SignedTransaction>, prev: Id, seconds: u32) -> Block {
    Block::new(txs, prev, BlockTimestamp::from_int_seconds(seconds), ConsensusData::NoConsensus).unwrap()
}

#[test]
fn test_storage_get_default_version_in_tx() {
    let store = Store::new_empty().unwrap();
    let vtx = {
        let tx = store.transaction_ro();
        tx.get_storage_version()
    };
    let vst = {
        let tx = store.transaction_ro();
        tx.get_storage_version()
    };
    assert_eq!(vtx, 1, "Default storage version wrong");
    assert_eq!(vtx, vst, "Transaction and non-transaction inconsistency");
}

#[test]
fn get_set_transactions() {
    // Set up the store and initialize the version to 2
    let mut store = Store::new_empty().unwrap();
    {
        let mut tx = store.transaction_rw();
        tx.set_storage_version(2);
        let delta = tx.consume();
        store.apply_delta(delta);
    }

    // Bump version and run a transaction that reads the version twice.
    {
        let mut tx = store.transaction_rw();
        let v = tx.get_storage_version();
        tx.set_storage_version(v + 1);
        let delta = tx.consume();
        store.apply_delta(delta);
    }
    {
        let tx = store.transaction_ro();
        let v1 = tx.get_storage_version();
        let v2 = tx.get_storage_version();
        assert!([2, 3].contains(&v1));
        assert_eq!(v1, v2, "Version query in a transaction inconsistent");
    }
    let tx = store.transaction_ro();
    assert_eq!(tx.get_storage_version(), 3);
}

#[test]
fn test_storage_transactions() {
    // Set up the store and initialize the version to 2
    let mut store = Store::new_empty().unwrap();
    {
        let mut tx = store.transaction_rw();
        tx.set_storage_version(2);
        let delta = tx.consume();
        store.apply_delta(delta);
    }

    // Bump version by 3 and 5 in two separate transactions
    {
        let mut tx = store.transaction_rw();
        let v = tx.get_storage_version();
        tx.set_storage_version(v + 3);
        let delta = tx.consume();
        store.apply_delta(delta);
    }
    {
        let mut tx = store.transaction_rw();
        let v = tx.get_storage_version();
        tx.set_storage_version(v + 5);
        let delta = tx.consume();
        store.apply_delta(delta);
    }
    let tx = store.transaction_ro();
    assert_eq!(tx.get_storage_version(), 10);
}

#[test]
fn test_storage_transactions_with_result_check() {
    // Set up the store and initialize the version to 2
    let mut store = Store::new_empty().unwrap();
    {
        let mut tx = store.transaction_rw();
        tx.set_storage_version(2);
        store.apply_delta(tx.consume());
    }

    // Bump version by 3 and 5 in two separate transactions
    {
        let mut tx = store.transaction_rw();
        let v = tx.get_storage_version();
        tx.set_storage_version(v + 3);
        store.apply_delta(tx.consume());
    }
    {
        let mut tx = store.transaction_rw();
        let v = tx.get_storage_version();
        tx.set_storage_version(v + 5);
        store.apply_delta(tx.consume());
    }
    let tx = store.transaction_ro();
    assert_eq!(tx.get_storage_version(), 10);
}

#[test]
fn locator_distances() {
    let distances: Vec<i64> = Chainstate::locator_tip_distances(7);
    assert_eq!(distances, vec![0, 1, 2, 4, 8, 16, 32]);
}

#[test]
fn storage_blocks_and_tx_index_roundtrip() {
    let config = create_unit_test_config();
    let mut store = Store::new_empty().unwrap();

    let tx0 = make_tx(0xaabbccdd, 12);
    let tx1 = make_tx(0xbbccddee, 34);
    let block0 = make_block(vec![tx0.clone()], config.genesis_block_id(), 12);
    let block1 = make_block(vec![tx1.clone()], block0.get_id(), 34);

    // Store is empty, the block is not there
    {
        let t = store.transaction_ro();
        assert!(t.get_block(block0.get_id()).is_none());
    }
    // Insert the first block and check it is there
    {
        let mut t = store.transaction_rw();
        t.add_block(block0.clone());
        store.apply_delta(t.consume());
    }
    {
        let t = store.transaction_ro();
        assert_eq!(t.get_block(block0.get_id()).unwrap(), &block0);
    }
    // Insert, remove, and reinsert the second block
    {
        let mut t = store.transaction_rw();
        t.add_block(block1.clone());
        store.apply_delta(t.consume());
    }
    {
        let mut t = store.transaction_rw();
        t.del_block(block1.get_id());
        store.apply_delta(t.consume());
    }
    {
        let t = store.transaction_ro();
        assert!(t.get_block(block1.get_id()).is_none());
        assert_eq!(t.get_block(block0.get_id()).unwrap(), &block0);
    }

    // Chain index operations
    let pos_tx0 = TxMainChainPosition::new(block0.get_id(), 0);
    let idx_tx0 = TxMainChainIndex::new(SpendablePosition::Transaction(pos_tx0), 1).unwrap();
    let key0 = OutPointSourceId::Transaction(tx0.transaction().get_id());
    {
        let t = store.transaction_ro();
        assert!(t.get_mainchain_tx_index(&key0).is_none());
    }
    {
        let mut t = store.transaction_rw();
        t.set_mainchain_tx_index(&key0, idx_tx0.duplicate());
        store.apply_delta(t.consume());
    }
    {
        let mut t = store.transaction_rw();
        assert_eq!(t.get_mainchain_tx_index(&key0).unwrap(), &idx_tx0);
        t.del_mainchain_tx_index(&key0);
        store.apply_delta(t.consume());
    }
    {
        let t = store.transaction_ro();
        assert!(t.get_mainchain_tx_index(&key0).is_none());
    }

    // Retrieve a transaction by its main-chain position
    {
        let mut t = store.transaction_rw();
        t.add_block(block0.clone());
        store.apply_delta(t.consume());
    }
    let t = store.transaction_ro();
    let found = t.get_mainchain_tx_by_position(&pos_tx0).unwrap();
    assert_eq!(found, &tx0);

    // Best block id get/set
    assert!(t.get_best_block_id().is_none());
    drop(t);
    {
        let mut t = store.transaction_rw();
        t.set_best_block_id(&block0.get_id());
        store.apply_delta(t.consume());
    }
    let t = store.transaction_ro();
    assert_eq!(t.get_best_block_id().unwrap(), block0.get_id());
}
