use db3_node::error::NodeError;
use db3_node::mutation_store::MutationStore;
use db3_node::records::{GcRecord, RollupRecord};
use db3_node::rollup_executor::{
    ChainReceipt, ClientPair, PendingRollup, RollupBatch, RollupExecutor, RollupExecutorConfig,
    RollupPlan, SystemConfig, UploadReceipt,
};

fn executor_config() -> RollupExecutorConfig {
    RollupExecutorConfig {
        temp_data_path: "/tmp/data_path".to_string(),
        key_root_path: "/tmp/keys".to_string(),
    }
}

fn system_config(min_rollup_size: u64, min_gc_offset: u64) -> SystemConfig {
    SystemConfig {
        min_rollup_size,
        rollup_interval: 1000,
        rollup_max_interval: 2000,
        network_id: 1,
        chain_id: 31337,
        evm_node_url: "ws://127.0.0.1:8545".to_string(),
        ar_node_url: "http://127.0.0.1:1985".to_string(),
        contract_addr: "0x5FbDB2315678afecb367f032d93F642f64180aa3".to_string(),
        min_gc_offset,
    }
}

fn executor_with(mutations: usize, min_rollup_size: u64, min_gc_offset: u64) -> RollupExecutor {
    let mut storage = MutationStore::new();
    for _ in 0..mutations {
        let added = storage.add_mutation(vec![1], "0xasdasdsad".to_string());
        assert!(added.is_ok());
    }
    RollupExecutor::new(
        executor_config(),
        storage,
        Some(system_config(min_rollup_size, min_gc_offset)),
    )
}

fn planned_batch(executor: &mut RollupExecutor) -> RollupBatch {
    match executor.process() {
        RollupPlan::Serialize(batch) => batch,
        other => panic!("no batch was planned: {:?}", other),
    }
}

fn upload(id: &str, rows: u64) -> UploadReceipt {
    UploadReceipt { blob_id: id.to_string(), reward: 11, num_rows: rows, compressed_size: 99 }
}

fn chain() -> ChainReceipt {
    ChainReceipt { evm_cost: 21000, tx_hash: vec![0xde, 0xad, 0x00, 0x0f] }
}

/// What a record of a retirement says, but for the time that the deletion
/// took, which the clock of the machine decides.
fn retired(record: Option<GcRecord>) -> Option<(u64, u64, u64, u64)> {
    record.map(|r| (r.start_block, r.end_block, r.data_size, r.time))
}

/// One whole tick that ends in a rollup of the blocks that were closed.
fn roll_up(executor: &mut RollupExecutor, blob: &str, time: u64) -> Option<GcRecord> {
    let added = executor.add_mutation(vec![7, 7], "0xsig".to_string());
    assert!(added.is_ok());
    assert!(executor.increase_block().is_ok());
    let batch = planned_batch(executor);
    assert!(executor.admit_batch(4096));
    let rows = batch.mutations.len() as u64;
    executor
        .commit_rollup(&batch, 4096, upload(blob, rows), chain(), time, 3)
        .expect("the rollup is recorded")
}

#[test]
fn test_rollup_smoke_test() {
    let mut executor = executor_with(1000, 1024, 100);
    let plan = executor.process();
    assert_eq!(plan, RollupPlan::NoNewBlock);
    assert_eq!(executor.storage().rollup_count(), 0);
    assert_eq!(executor.storage().mutation_count(), 1000);
}

#[test]
fn without_configuration_a_tick_does_nothing() {
    let mut storage = MutationStore::new();
    storage.add_mutation(vec![1], "sig".to_string()).unwrap();
    storage.increase_block().unwrap();
    let mut executor = RollupExecutor::new(executor_config(), storage, None);
    assert!(!executor.is_configured());
    assert_eq!(executor.clients(), None);
    assert_eq!(executor.min_rollup_size(), 0);
    assert_eq!(executor.rollup_max_interval(), 0);
    assert_eq!(executor.min_gc_round_offset(), 0);
    assert_eq!(executor.network_id(), 0);
    assert_eq!(executor.process(), RollupPlan::NotConfigured);
    assert_eq!(
        executor.pending(),
        PendingRollup { start_block: 0, end_block: 0, mutations: 0, data_size: 0 }
    );
    assert_eq!(executor.storage().rollup_count(), 0);
}

#[test]
fn closed_blocks_without_mutations_plan_nothing() {
    let mut executor =
        RollupExecutor::new(executor_config(), MutationStore::new(), Some(system_config(10, 2)));
    assert!(executor.increase_block().is_ok());
    assert!(executor.increase_block().is_ok());
    assert_eq!(executor.process(), RollupPlan::NoMutation);
    assert_eq!(
        executor.pending(),
        PendingRollup { start_block: 0, end_block: 2, mutations: 0, data_size: 0 }
    );
}

#[test]
fn cold_start_below_threshold_defers_the_batch() {
    let mut executor = executor_with(500, 10 * 1024, 2);
    let current = executor.increase_block().unwrap();
    let batch = planned_batch(&mut executor);
    assert_eq!(batch.mutations.len(), 500);
    assert_eq!(batch.start_block, 0);
    assert_eq!(batch.end_block, current);
    assert_eq!(batch.prev_blob_id, "");
    assert_eq!(batch.network_id, 1);
    assert!(!executor.admit_batch(3072));
    assert_eq!(executor.storage().rollup_count(), 0);
    assert_eq!(
        executor.pending(),
        PendingRollup { start_block: 0, end_block: current, mutations: 500, data_size: 3072 }
    );
    let pending = executor.get_pending_rollup(1700);
    assert_eq!(
        pending,
        RollupRecord {
            end_block: current,
            raw_data_size: 3072,
            compress_data_size: 0,
            processed_time: 0,
            arweave_tx: String::new(),
            time: 1700,
            mutation_count: 500,
            cost: 0,
            start_block: 0,
            evm_tx: String::new(),
            evm_cost: 0,
        }
    );
}

#[test]
fn threshold_crossed_appends_one_record() {
    let mut executor = executor_with(2000, 10 * 1024, 2);
    let current = executor.increase_block().unwrap();
    let batch = planned_batch(&mut executor);
    assert_eq!(batch.mutations.len(), 2000);
    assert!(executor.admit_batch(12 * 1024));
    assert_eq!(
        executor.pending(),
        PendingRollup { start_block: 0, end_block: 0, mutations: 0, data_size: 0 }
    );
    let retired = executor
        .commit_rollup(&batch, 12 * 1024, upload("blob-1", 2000), chain(), 1700, 3)
        .unwrap();
    assert_eq!(retired, None);
    assert_eq!(executor.storage().rollup_count(), 1);
    assert_eq!(
        executor.storage().get_last_rollup_record(),
        Some(RollupRecord {
            end_block: current,
            raw_data_size: 12 * 1024,
            compress_data_size: 99,
            processed_time: 3,
            arweave_tx: "blob-1".to_string(),
            time: 1700,
            mutation_count: 2000,
            cost: 11,
            start_block: 0,
            evm_tx: "0xdead000f".to_string(),
            evm_cost: 21000,
        })
    );
    assert_eq!(
        executor.pending(),
        PendingRollup { start_block: 0, end_block: 0, mutations: 0, data_size: 0 }
    );
}

#[test]
fn threshold_is_met_at_exactly_the_minimum_size() {
    let mut executor = executor_with(3, 100, 2);
    executor.increase_block().unwrap();
    planned_batch(&mut executor);
    assert!(!executor.admit_batch(99));
    assert!(executor.admit_batch(100));
}

#[test]
fn next_batch_links_to_the_previous_blob() {
    let mut executor = executor_with(0, 10, 5);
    roll_up(&mut executor, "blob-1", 10);
    executor.add_mutation(vec![9], "sig".to_string()).unwrap();
    executor.increase_block().unwrap();
    let batch = planned_batch(&mut executor);
    assert_eq!(batch.prev_blob_id, "blob-1");
    assert_eq!(batch.start_block, 1);
    assert_eq!(batch.end_block, 2);
    assert_eq!(batch.mutations.len(), 1);
    assert_eq!(batch.mutations[0].payload, vec![9]);
    assert_eq!(
        executor.pending(),
        PendingRollup { start_block: 0, end_block: 2, mutations: 1, data_size: 0 }
    );
}

#[test]
fn gc_retires_the_oldest_range_once_two_rounds_are_behind_it() {
    let mut executor = executor_with(0, 10, 2);
    assert_eq!(roll_up(&mut executor, "blob-1", 10), None);
    assert_eq!(roll_up(&mut executor, "blob-2", 20), None);
    assert_eq!(executor.storage().gc_count(), 0);
    assert_eq!(executor.storage().mutation_count(), 2);
    let first = roll_up(&mut executor, "blob-3", 30);
    assert_eq!(retired(first), Some((0, 1, 4096, 30)));
    assert_eq!(executor.storage().gc_count(), 1);
    assert_eq!(executor.storage().mutation_count(), 2);
    assert!(executor.storage().get_range_mutations(0, 1).is_empty());
    assert_eq!(executor.storage().get_range_mutations(1, 3).len(), 2);
    let second = roll_up(&mut executor, "blob-4", 40);
    assert_eq!(retired(second), Some((1, 2, 4096, 40)));
    assert_eq!(executor.storage().gc_count(), 2);
    assert_eq!(executor.storage().get_last_gc_record(), second);
    assert_eq!(executor.storage().rollup_count(), 4);
}

#[test]
fn gc_never_comes_within_the_offset_of_the_last_rollup() {
    for offset in 0..4u64 {
        let mut executor = executor_with(0, 10, offset);
        for round in 0..8u64 {
            roll_up(&mut executor, "blob", round);
            let rollups = executor.storage().rollup_count() as u64;
            let retired = executor.storage().gc_count() as u64;
            if retired > 0 {
                assert!(rollups - retired >= offset, "offset {offset} round {round}");
            }
            assert!(retired <= rollups);
        }
    }
}

#[test]
fn rollup_ranges_follow_each_other_from_block_zero() {
    let mut executor = executor_with(0, 10, 100);
    let mut expected_start = 0;
    for round in 0..6u64 {
        for _ in 0..round {
            executor.increase_block().unwrap();
        }
        roll_up(&mut executor, "blob", round);
        let last = executor.storage().get_last_rollup_record().unwrap();
        assert_eq!(last.start_block, expected_start);
        assert!(last.start_block < last.end_block);
        assert_eq!(last.end_block, executor.storage().get_current_block());
        assert_eq!(
            executor.storage().get_rollup_record(expected_start).map(|r| r.end_block),
            Some(last.end_block)
        );
        expected_start = last.end_block;
    }
    assert_eq!(executor.storage().get_rollup_record(0).unwrap().start_block, 0);
}

#[test]
fn a_stale_batch_is_refused_with_a_rollup_error() {
    let mut executor = executor_with(1, 10, 2);
    executor.increase_block().unwrap();
    let batch = planned_batch(&mut executor);
    assert!(executor.admit_batch(64));
    let first = executor.commit_rollup(&batch, 64, upload("blob-1", 1), chain(), 5, 3);
    assert_eq!(first, Ok(None));
    let again = executor.commit_rollup(&batch, 64, upload("blob-1", 1), chain(), 6, 3);
    assert_eq!(again, Err(NodeError::RollupError));
    assert_eq!(executor.storage().rollup_count(), 1);
}

#[test]
fn update_config_replaces_both_clients_together() {
    let mut executor = executor_with(1, 10, 2);
    executor.increase_block().unwrap();
    let before = planned_batch(&mut executor);
    assert_eq!(
        before.clients,
        ClientPair {
            ar_node_url: "http://127.0.0.1:1985".to_string(),
            key_root_path: "/tmp/keys".to_string(),
            temp_data_path: "/tmp/data_path".to_string(),
            contract_addr: "0x5FbDB2315678afecb367f032d93F642f64180aa3".to_string(),
            evm_node_url: "ws://127.0.0.1:8545".to_string(),
            chain_id: 31337,
        }
    );
    let newer = SystemConfig {
        min_rollup_size: 77,
        rollup_interval: 5,
        rollup_max_interval: 6,
        network_id: 9,
        chain_id: 80001,
        evm_node_url: "ws://chain.example:8545".to_string(),
        ar_node_url: "http://blob.example:1984".to_string(),
        contract_addr: "0x0000000000000000000000000000000000000001".to_string(),
        min_gc_offset: 1,
    };
    assert_eq!(executor.clients_for(&newer).chain_id, 80001);
    assert_eq!(executor.clients_for(&newer).key_root_path, "/tmp/keys");
    assert_eq!(executor.clients(), Some(before.clients.clone()));
    executor.update_config(Some(newer.clone()));
    assert!(executor.is_configured());
    assert_eq!(executor.clients(), Some(executor.clients_for(&newer)));
    let after = planned_batch(&mut executor);
    assert_eq!(
        after.clients,
        ClientPair {
            ar_node_url: "http://blob.example:1984".to_string(),
            key_root_path: "/tmp/keys".to_string(),
            temp_data_path: "/tmp/data_path".to_string(),
            contract_addr: "0x0000000000000000000000000000000000000001".to_string(),
            evm_node_url: "ws://chain.example:8545".to_string(),
            chain_id: 80001,
        }
    );
    assert_eq!(after.network_id, 9);
    assert_eq!(executor.network_id(), 9);
    assert_eq!(executor.min_rollup_size(), 77);
    assert_eq!(executor.rollup_max_interval(), 6);
    assert_eq!(executor.min_gc_round_offset(), 1);
    assert!(!executor.admit_batch(76));
    assert!(executor.admit_batch(77));
    executor.update_config(None);
    let kept = planned_batch(&mut executor);
    assert_eq!(kept.clients, after.clients);
}

#[test]
fn update_config_sets_up_a_batcher_that_had_no_configuration() {
    let mut storage = MutationStore::new();
    storage.add_mutation(vec![1], "sig".to_string()).unwrap();
    storage.increase_block().unwrap();
    let mut executor = RollupExecutor::new(executor_config(), storage, None);
    assert_eq!(executor.process(), RollupPlan::NotConfigured);
    executor.update_config(Some(system_config(10, 2)));
    let batch = planned_batch(&mut executor);
    assert_eq!(batch.mutations.len(), 1);
    assert_eq!(batch.clients.chain_id, 31337);
}

#[test]
fn nothing_is_retired_while_too_few_rounds_are_behind() {
    let mut executor = executor_with(0, 10, 3);
    for round in 0..3u64 {
        assert_eq!(roll_up(&mut executor, "blob", round), None);
        assert_eq!(executor.storage().gc_count(), 0);
        assert_eq!(executor.storage().get_last_gc_record(), None);
        assert_eq!(executor.storage().mutation_count() as u64, round + 1);
        assert_eq!(executor.storage().rollup_count() as u64, round + 1);
    }
    assert_eq!(retired(roll_up(&mut executor, "blob", 3)), Some((0, 1, 4096, 3)));
    assert_eq!(executor.storage().mutation_count(), 3);
}
