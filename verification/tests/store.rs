use db3_node::error::NodeError;
use db3_node::mutation_store::{MutationStore, StoredMutation};
use db3_node::records::{GcRecord, RollupRecord};

fn record(start_block: u64, end_block: u64) -> RollupRecord {
    RollupRecord {
        end_block,
        raw_data_size: 10,
        compress_data_size: 5,
        processed_time: 1,
        arweave_tx: format!("blob-{start_block}"),
        time: 100,
        mutation_count: 1,
        cost: 2,
        start_block,
        evm_tx: "0x00".to_string(),
        evm_cost: 3,
    }
}

fn gc(start_block: u64, end_block: u64) -> GcRecord {
    GcRecord { start_block, end_block, data_size: 10, time: 100, processed_time: 0 }
}

/// A store with `blocks` closed blocks of two mutations each.
fn store_with_blocks(blocks: u64) -> MutationStore {
    let mut store = MutationStore::new();
    for block in 0..blocks {
        assert_eq!(store.add_mutation(vec![block as u8, 0], "a".to_string()), Ok((block, 0)));
        assert_eq!(store.add_mutation(vec![block as u8, 1], "b".to_string()), Ok((block, 1)));
        assert_eq!(store.increase_block(), Ok(block + 1));
    }
    store
}

#[test]
fn new_store_is_empty() {
    let store = MutationStore::new();
    assert_eq!(store.mutation_count(), 0);
    assert_eq!(store.rollup_count(), 0);
    assert_eq!(store.gc_count(), 0);
    assert_eq!(store.get_current_block(), 0);
    assert_eq!(store.get_last_rollup_record(), None);
    assert_eq!(store.get_last_gc_record(), None);
    assert_eq!(store.get_rollup_record(0), None);
    assert_eq!(store.get_next_rollup_record(0), None);
}

#[test]
fn mutations_get_the_next_position_of_the_open_block() {
    let mut store = MutationStore::new();
    assert_eq!(store.add_mutation(vec![1], "sig-a".to_string()), Ok((0, 0)));
    assert_eq!(store.add_mutation(vec![2], "sig-b".to_string()), Ok((0, 1)));
    assert_eq!(store.increase_block(), Ok(1));
    assert_eq!(store.add_mutation(vec![3], "sig-c".to_string()), Ok((1, 0)));
    assert_eq!(store.get_current_block(), 1);
    assert_eq!(store.mutation_count(), 3);
}

#[test]
fn range_holds_the_mutations_of_its_blocks_in_order() {
    let store = store_with_blocks(4);
    let found = store.get_range_mutations(1, 3);
    assert_eq!(
        found,
        vec![
            StoredMutation { block: 1, order: 0, payload: vec![1, 0], signature: "a".to_string() },
            StoredMutation { block: 1, order: 1, payload: vec![1, 1], signature: "b".to_string() },
            StoredMutation { block: 2, order: 0, payload: vec![2, 0], signature: "a".to_string() },
            StoredMutation { block: 2, order: 1, payload: vec![2, 1], signature: "b".to_string() },
        ]
    );
    assert!(store.get_range_mutations(2, 2).is_empty());
    assert!(store.get_range_mutations(4, 9).is_empty());
    assert_eq!(store.get_range_mutations(0, u64::MAX).len(), 8);
}

#[test]
fn rollup_records_must_follow_each_other() {
    let mut store = store_with_blocks(5);
    assert_eq!(store.add_rollup_record(record(1, 2)), Err(NodeError::StorageError));
    assert_eq!(store.add_rollup_record(record(0, 0)), Err(NodeError::StorageError));
    assert_eq!(store.add_rollup_record(record(0, 6)), Err(NodeError::StorageError));
    assert_eq!(store.rollup_count(), 0);
    assert_eq!(store.add_rollup_record(record(0, 2)), Ok(()));
    assert_eq!(store.add_rollup_record(record(0, 2)), Err(NodeError::StorageError));
    assert_eq!(store.add_rollup_record(record(3, 4)), Err(NodeError::StorageError));
    assert_eq!(store.add_rollup_record(record(2, 5)), Ok(()));
    assert_eq!(store.rollup_count(), 2);
    assert_eq!(store.get_last_rollup_record(), Some(record(2, 5)));
}

#[test]
fn rollup_records_are_found_by_their_start() {
    let mut store = store_with_blocks(6);
    store.add_rollup_record(record(0, 2)).unwrap();
    store.add_rollup_record(record(2, 3)).unwrap();
    store.add_rollup_record(record(3, 6)).unwrap();
    assert_eq!(store.get_rollup_record(0), Some(record(0, 2)));
    assert_eq!(store.get_rollup_record(2), Some(record(2, 3)));
    assert_eq!(store.get_rollup_record(1), None);
    assert_eq!(store.get_rollup_record(6), None);
    assert_eq!(store.get_next_rollup_record(0), Some(record(2, 3)));
    assert_eq!(store.get_next_rollup_record(1), Some(record(2, 3)));
    assert_eq!(store.get_next_rollup_record(2), Some(record(3, 6)));
    assert_eq!(store.get_next_rollup_record(3), None);
}

#[test]
fn rounds_are_counted_strictly_after_the_start() {
    let mut store = store_with_blocks(6);
    assert!(store.has_enough_round_left(0, 0));
    assert!(!store.has_enough_round_left(0, 1));
    store.add_rollup_record(record(0, 2)).unwrap();
    assert!(!store.has_enough_round_left(0, 1));
    store.add_rollup_record(record(2, 3)).unwrap();
    store.add_rollup_record(record(3, 6)).unwrap();
    assert!(store.has_enough_round_left(0, 2));
    assert!(!store.has_enough_round_left(0, 3));
    assert!(store.has_enough_round_left(2, 1));
    assert!(!store.has_enough_round_left(2, 2));
    assert!(store.has_enough_round_left(3, 0));
    assert!(!store.has_enough_round_left(3, 1));
}

#[test]
fn gc_range_deletes_exactly_the_blocks_of_the_range() {
    let mut store = store_with_blocks(4);
    store.gc_range_mutation(1, 3);
    assert_eq!(store.mutation_count(), 4);
    assert_eq!(store.get_range_mutations(0, 1).len(), 2);
    assert!(store.get_range_mutations(1, 3).is_empty());
    assert_eq!(store.get_range_mutations(3, 4).len(), 2);
    store.gc_range_mutation(7, 9);
    assert_eq!(store.mutation_count(), 4);
}

#[test]
fn gc_records_retire_the_oldest_range_after_its_mutations_are_gone() {
    let mut store = store_with_blocks(4);
    assert_eq!(store.add_gc_record(gc(0, 2)), Err(NodeError::StorageError));
    store.add_rollup_record(record(0, 2)).unwrap();
    store.add_rollup_record(record(2, 4)).unwrap();
    assert_eq!(store.add_gc_record(gc(0, 2)), Err(NodeError::StorageError));
    store.gc_range_mutation(0, 2);
    assert_eq!(store.add_gc_record(gc(2, 4)), Err(NodeError::StorageError));
    assert_eq!(store.add_gc_record(gc(0, 1)), Err(NodeError::StorageError));
    assert_eq!(store.add_gc_record(gc(0, 2)), Ok(()));
    assert_eq!(store.get_last_gc_record(), Some(gc(0, 2)));
    assert_eq!(store.add_gc_record(gc(0, 2)), Err(NodeError::StorageError));
    store.gc_range_mutation(2, 4);
    assert_eq!(store.add_gc_record(gc(2, 4)), Ok(()));
    assert_eq!(store.gc_count(), 2);
    assert_eq!(store.add_gc_record(gc(4, 5)), Err(NodeError::StorageError));
    assert_eq!(store.mutation_count(), 0);
}
