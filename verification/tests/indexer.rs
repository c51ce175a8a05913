use db3_node::doc_store::{AppliedMutation, DocStore, EventDatabase};
use db3_node::error::NodeError;
use db3_node::indexer_impl::{
    BlockRange, EventMessage, FetchedMutation, IndexerNodeImpl, MutationHeader, StatusCode,
    SyncAction, SyncEvent, SyncPhase,
};
use db3_node::mutation_verifier::{
    verify, verify_admin, AdminRecovery, AdminRequest, MutationAction, Recovery, VerifiedMutation,
};
use db3_node::records::BlockState;
use db3_node::registry::{ContractSyncStatus, EventProcessorConfig, ProcessorRegistry};
use db3_node::rollup_executor::SystemConfig;

const ADMIN: &str = "0x5FbDB2315678afecb367f032d93F642f64180aa3";

fn admin_bytes() -> Vec<u8> {
    vec![
        0x5f, 0xbd, 0xb2, 0x31, 0x56, 0x78, 0xaf, 0xec, 0xb3, 0x67, 0xf0, 0x32, 0xd9, 0x3f, 0x64,
        0x2f, 0x64, 0x18, 0x0a, 0xa3,
    ]
}

fn signer(tag: u8) -> Vec<u8> {
    vec![tag; 20]
}

fn node_with_admin(admin: &str) -> IndexerNodeImpl {
    IndexerNodeImpl::new(
        DocStore::new(),
        1,
        31337,
        "http://127.0.0.1:26639".to_string(),
        "http://127.0.0.1:1985".to_string(),
        "/tmp/keys".to_string(),
        "0x0000000000000000000000000000000000000009".to_string(),
        "ws://127.0.0.1:8545".to_string(),
        admin.to_string(),
        "/tmp/recover".to_string(),
    )
}

fn node() -> IndexerNodeImpl {
    node_with_admin(ADMIN)
}

fn fetched(block: u64, order: u32, action: i32) -> FetchedMutation {
    FetchedMutation {
        header: Some(MutationHeader {
            block_id: block,
            order_id: order,
            doc_ids_map: format!("ids-{block}-{order}"),
            network: 1,
        }),
        recovery: Recovery::Signed {
            signer: signer(3),
            action,
            nonce: block * 100 + order as u64,
            body: vec![block as u8, order as u8],
        },
        doc_ids: Some(vec![vec![block as i64, order as i64], vec![]]),
    }
}

fn entry(block: u64, order: u32, action: MutationAction) -> AppliedMutation {
    AppliedMutation {
        block,
        order,
        network: 1,
        action,
        signer: signer(3),
        nonce: block * 100 + order as u64,
        body: vec![block as u8, order as u8],
        doc_ids: vec![vec![block as i64, order as i64], vec![]],
    }
}

fn ledger(node: &IndexerNodeImpl) -> Vec<AppliedMutation> {
    let store = node.db_store();
    (0..store.applied_count()).map(|i| store.applied_at(i).clone()).collect()
}

fn event_db(tag: u8, contract: &str) -> EventDatabase {
    EventDatabase {
        address: vec![tag; 20],
        evm_node_url: format!("ws://evm-{tag}"),
        events_json_abi: "[]".to_string(),
        contract_address: contract.to_string(),
        tables: vec!["Transfer".to_string(), "Approval".to_string()],
    }
}

#[test]
fn verifier_types_a_signed_mutation() {
    let recovery =
        Recovery::Signed { signer: signer(9), action: 3, nonce: 42, body: vec![1, 2, 3] };
    assert_eq!(
        verify(&recovery),
        Ok(VerifiedMutation {
            action: MutationAction::UpdateDocument,
            signer: signer(9),
            nonce: 42,
            body: vec![1, 2, 3],
        })
    );
}

#[test]
fn verifier_names_the_reason_of_a_refusal() {
    assert_eq!(verify(&Recovery::Malformed), Err(NodeError::MalformedPayload));
    assert_eq!(verify(&Recovery::BadSignature), Err(NodeError::InvalidSignature));
    let short = Recovery::Signed { signer: vec![1; 19], action: 0, nonce: 1, body: vec![] };
    assert_eq!(verify(&short), Err(NodeError::InvalidSignature));
    let unknown = Recovery::Signed { signer: signer(1), action: 5, nonce: 1, body: vec![] };
    assert_eq!(verify(&unknown), Err(NodeError::UnknownAction));
    let negative = Recovery::Signed { signer: signer(1), action: -1, nonce: 1, body: vec![] };
    assert_eq!(verify(&negative), Err(NodeError::UnknownAction));
}

#[test]
fn action_codes_and_actions_match() {
    let all = [
        MutationAction::CreateDatabase,
        MutationAction::CreateCollection,
        MutationAction::AddDocument,
        MutationAction::UpdateDocument,
        MutationAction::DeleteDocument,
    ];
    for (code, action) in all.iter().enumerate() {
        assert_eq!(MutationAction::from_i32(code as i32), Some(*action));
        assert_eq!(action.code(), code as i32);
    }
    assert_eq!(MutationAction::from_i32(5), None);
    assert_eq!(MutationAction::from_i32(i32::MIN), None);
}

#[test]
fn admin_request_needs_the_signature_of_the_admin() {
    let signed = AdminRecovery::Signed { signer: admin_bytes(), network: Some(7) };
    assert_eq!(
        verify_admin(&signed, &admin_bytes()),
        Ok(AdminRequest { admin: admin_bytes(), network: 7 })
    );
    let unnamed = AdminRecovery::Signed { signer: admin_bytes(), network: None };
    assert_eq!(
        verify_admin(&unnamed, &admin_bytes()),
        Ok(AdminRequest { admin: admin_bytes(), network: 0 })
    );
    let other = AdminRecovery::Signed { signer: signer(4), network: Some(7) };
    assert_eq!(verify_admin(&other, &admin_bytes()), Err(NodeError::PermissionDenied));
    assert_eq!(
        verify_admin(&AdminRecovery::Malformed, &admin_bytes()),
        Err(NodeError::MalformedPayload)
    );
    assert_eq!(
        verify_admin(&AdminRecovery::BadSignature, &admin_bytes()),
        Err(NodeError::InvalidSignature)
    );
}

#[test]
fn setup_by_the_admin_switches_the_network() {
    let mut node = node();
    assert_eq!(node.network_id(), 1);
    let signed = AdminRecovery::Signed { signer: admin_bytes(), network: Some(7) };
    let answer = node.setup(&signed).unwrap();
    assert_eq!(answer.code, 0);
    assert_eq!(answer.msg, "ok");
    assert_eq!(node.network_id(), 7);
    let status = node.get_system_status(&signer(2), "1.0".to_string());
    assert_eq!(status.config.map(|c| c.network_id), Some(7));
    assert!(status.has_inited);
    assert_eq!(status.evm_account, format!("0x{}", "02".repeat(20)));
}

#[test]
fn setup_by_another_account_is_denied() {
    let mut node = node();
    let other = AdminRecovery::Signed { signer: signer(4), network: Some(7) };
    assert_eq!(node.setup(&other), Err(StatusCode::PermissionDenied));
    assert_eq!(node.network_id(), 1);
    let status = node.get_system_status(&signer(2), "1.0".to_string());
    assert_eq!(status.config.map(|c| c.network_id), Some(1));
    assert!(!status.has_inited);
}

#[test]
fn setup_reads_the_admin_text_as_an_address() {
    let mut without_prefix = node_with_admin("5fbdb2315678afecb367f032d93f642f64180aa3");
    let signed = AdminRecovery::Signed { signer: admin_bytes(), network: Some(3) };
    assert!(without_prefix.setup(&signed).is_ok());
    assert_eq!(without_prefix.network_id(), 3);
    let mut unreadable = node_with_admin("not an address");
    assert_eq!(unreadable.setup(&signed), Err(StatusCode::Internal));
    assert_eq!(unreadable.network_id(), 1);
    let mut short = node_with_admin("0x5fbd");
    assert_eq!(short.setup(&signed), Err(StatusCode::Internal));
}

#[test]
fn setup_refuses_what_did_not_pass_the_check() {
    let mut node = node();
    assert_eq!(node.setup(&AdminRecovery::Malformed), Err(StatusCode::InvalidArgument));
    assert_eq!(node.setup(&AdminRecovery::BadSignature), Err(StatusCode::InvalidArgument));
    let short = AdminRecovery::Signed { signer: vec![1, 2], network: Some(7) };
    assert_eq!(node.setup(&short), Err(StatusCode::InvalidArgument));
    assert_eq!(node.setup_as(&short, None), Err(StatusCode::InvalidArgument));
    let signed = AdminRecovery::Signed { signer: admin_bytes(), network: Some(7) };
    assert_eq!(node.setup_as(&signed, None), Err(StatusCode::Internal));
    assert_eq!(node.network_id(), 1);
    assert!(node.setup_as(&signed, Some(admin_bytes())).is_ok());
    assert_eq!(node.network_id(), 7);
}

#[test]
fn system_status_shows_the_wallet_in_hexadecimal() {
    let node = node();
    let status = node.get_system_status(&vec![0x00, 0x9a, 0xff, 0x10], "1.2.3".to_string());
    assert_eq!(status.evm_account, "0x009aff10");
    assert_eq!(status.evm_balance, "0");
    assert_eq!(status.ar_account, "");
    assert_eq!(status.ar_balance, "");
    assert_eq!(status.node_url, "http://127.0.0.1:26639");
    assert_eq!(
        status.config,
        Some(SystemConfig {
            min_rollup_size: 0,
            rollup_interval: 0,
            rollup_max_interval: 0,
            network_id: 1,
            chain_id: 31337,
            evm_node_url: "ws://127.0.0.1:8545".to_string(),
            ar_node_url: "http://127.0.0.1:1985".to_string(),
            contract_addr: "0x0000000000000000000000000000000000000009".to_string(),
            min_gc_offset: 0,
        })
    );
    assert!(!status.has_inited);
    assert_eq!(status.admin_addr, ADMIN);
    assert_eq!(status.version, "1.2.3");
    let empty = node.get_system_status(&vec![], String::new());
    assert_eq!(empty.evm_account, "0x");
}

#[test]
fn query_needs_an_address_and_a_query() {
    let node = node();
    assert_eq!(node.run_query(Some(signer(1)), true), Ok(signer(1)));
    assert_eq!(node.run_query(Some(signer(1)), false), Err(StatusCode::InvalidArgument));
    assert_eq!(node.run_query(None, true), Err(StatusCode::InvalidArgument));
    assert_eq!(node.run_query(Some(vec![1; 21]), true), Err(StatusCode::InvalidArgument));
}

#[test]
fn mutations_are_applied_in_their_order() {
    let mut node = node();
    let batch = vec![fetched(1, 0, 0), fetched(1, 1, 1), fetched(2, 0, 2)];
    assert_eq!(node.parse_and_apply_mutations(&batch), Ok(()));
    assert_eq!(
        ledger(&node),
        vec![
            entry(1, 0, MutationAction::CreateDatabase),
            entry(1, 1, MutationAction::CreateCollection),
            entry(2, 0, MutationAction::AddDocument),
        ]
    );
    assert_eq!(node.db_store().recover_block_state(), Some(BlockState { block: 2, order: 0 }));
}

#[test]
fn applying_stops_at_the_first_refused_mutation() {
    let mut node = node();
    let mut headless = fetched(1, 1, 1);
    headless.header = None;
    let batch = vec![fetched(1, 0, 0), headless, fetched(2, 0, 2)];
    assert_eq!(node.parse_and_apply_mutations(&batch), Err(NodeError::WriteStoreError));
    assert_eq!(ledger(&node), vec![entry(1, 0, MutationAction::CreateDatabase)]);

    let mut node = IndexerNodeImpl::new(
        DocStore::new(),
        1,
        1,
        String::new(),
        String::new(),
        String::new(),
        String::new(),
        String::new(),
        String::new(),
        String::new(),
    );
    let mut unsigned = fetched(3, 0, 1);
    unsigned.recovery = Recovery::BadSignature;
    let batch = vec![fetched(1, 0, 0), fetched(2, 0, 4), unsigned, fetched(4, 0, 2)];
    assert_eq!(node.parse_and_apply_mutations(&batch), Err(NodeError::WriteStoreError));
    assert_eq!(node.db_store().applied_count(), 2);
    let unknown = vec![fetched(5, 0, 17)];
    assert_eq!(node.parse_and_apply_mutations(&unknown), Err(NodeError::WriteStoreError));
    let malformed = vec![FetchedMutation {
        header: fetched(5, 0, 0).header,
        recovery: Recovery::Malformed,
        doc_ids: fetched(5, 0, 0).doc_ids,
    }];
    assert_eq!(node.parse_and_apply_mutations(&malformed), Err(NodeError::WriteStoreError));
    assert_eq!(node.db_store().applied_count(), 2);
}

#[test]
fn recovery_of_the_same_mutations_changes_nothing() {
    let mut node = node();
    let batch: Vec<FetchedMutation> =
        (0..10).map(|i| fetched(1 + i / 4, (i % 4) as u32, 2)).collect();
    assert_eq!(node.parse_and_apply_mutations(&batch), Ok(()));
    let before = ledger(&node);
    assert_eq!(before.len(), 10);
    let request = node.recover_from_fetched_blocks();
    assert_eq!(request, BlockRange { start: 3, end: 1003 });
    let next = node.continue_recovery(request, &batch);
    assert_eq!(next, Ok(Some(BlockRange { start: 1003, end: 2003 })));
    assert_eq!(ledger(&node), before);
    let done = node.continue_recovery(next.unwrap().unwrap(), &Vec::new());
    assert_eq!(done, Ok(None));
    assert_eq!(ledger(&node), before);
}

#[test]
fn duplicates_in_the_stream_are_applied_once_in_ascending_order() {
    let mut node = node();
    let stream = vec![
        fetched(1, 0, 0),
        fetched(1, 1, 1),
        fetched(1, 0, 0),
        fetched(1, 1, 1),
        fetched(2, 0, 2),
        fetched(1, 1, 1),
        fetched(2, 0, 2),
        fetched(2, 5, 3),
        fetched(7, 0, 4),
        fetched(2, 5, 3),
    ];
    assert_eq!(node.parse_and_apply_mutations(&stream), Ok(()));
    let mut once = node_with_admin(ADMIN);
    let sorted =
        vec![fetched(1, 0, 0), fetched(1, 1, 1), fetched(2, 0, 2), fetched(2, 5, 3), fetched(7, 0, 4)];
    assert_eq!(once.parse_and_apply_mutations(&sorted), Ok(()));
    assert_eq!(ledger(&node), ledger(&once));
    assert_eq!(ledger(&node).len(), 5);
}

#[test]
fn a_mutation_behind_the_watermark_is_taken_and_one_at_it_is_not() {
    let mut store = DocStore::new();
    assert_eq!(store.recover_block_state(), None);
    assert!(store.apply_mutation(entry(2, 3, MutationAction::AddDocument)));
    assert!(!store.apply_mutation(entry(2, 3, MutationAction::AddDocument)));
    assert!(!store.apply_mutation(entry(2, 2, MutationAction::AddDocument)));
    assert!(!store.apply_mutation(entry(1, 9, MutationAction::AddDocument)));
    assert!(store.apply_mutation(entry(2, 4, MutationAction::AddDocument)));
    assert!(store.apply_mutation(entry(3, 0, MutationAction::AddDocument)));
    assert_eq!(store.applied_count(), 3);
    assert_eq!(store.recover_block_state(), Some(BlockState { block: 3, order: 0 }));
}

#[test]
fn backlog_requests_move_on_by_a_stride_of_a_thousand_blocks() {
    let mut node = node();
    assert_eq!(node.recover_from_fetched_blocks(), BlockRange { start: 0, end: 1000 });
    let far = vec![fetched(u64::MAX - 5, 0, 0)];
    let request = BlockRange { start: u64::MAX - 1500, end: u64::MAX - 500 };
    assert_eq!(
        node.continue_recovery(request, &far),
        Ok(Some(BlockRange { start: u64::MAX - 500, end: u64::MAX }))
    );
    assert_eq!(
        node.recover_from_fetched_blocks(),
        BlockRange { start: u64::MAX - 5, end: u64::MAX }
    );
    let exact = BlockRange { start: 0, end: u64::MAX - 1000 };
    assert_eq!(
        node.continue_recovery(exact, &vec![fetched(u64::MAX - 4, 0, 0)]),
        Ok(Some(BlockRange { start: u64::MAX - 1000, end: u64::MAX }))
    );
}

#[test]
fn a_failed_fetch_batch_ends_the_backlog_with_an_error() {
    let mut node = node();
    let mut bad = fetched(1, 0, 0);
    bad.recovery = Recovery::Malformed;
    let request = node.recover_from_fetched_blocks();
    assert_eq!(node.continue_recovery(request, &vec![bad]), Err(NodeError::WriteStoreError));
}

#[test]
fn blob_replay_starts_behind_the_watermark() {
    let mut node = node();
    let plan = node.recover_from_ar();
    assert_eq!(plan.from_block, 0);
    assert_eq!(plan.network_id, 1);
    assert_eq!(plan.chain_id, 31337);
    assert_eq!(plan.config.ar_node_url, "http://127.0.0.1:1985");
    assert_eq!(plan.config.temp_data_path, "/tmp/recover");
    assert_eq!(plan.config.key_root_path, "/tmp/keys");
    assert_eq!(plan.config.contract_addr, "0x0000000000000000000000000000000000000009");
    assert_eq!(plan.config.evm_node_url, "ws://127.0.0.1:8545");
    assert!(plan.config.enable_mutation_recover);
    assert!(!node.needs_replay(0));
    assert!(node.needs_replay(1));
    node.parse_and_apply_mutations(&vec![fetched(6, 2, 0)]).unwrap();
    assert_eq!(node.recover_from_ar().from_block, 6);
    assert!(!node.needs_replay(6));
    assert!(node.needs_replay(7));
}

#[test]
fn block_events_ask_for_the_blocks_since_the_watermark() {
    let mut node = node();
    let event = EventMessage::BlockEvent { block_id: 9, mutation_count: 3 };
    assert_eq!(node.handle_event(event), Some(BlockRange { start: 0, end: 9 }));
    node.parse_and_apply_mutations(&vec![fetched(4, 1, 0)]).unwrap();
    assert_eq!(node.handle_event(event), Some(BlockRange { start: 4, end: 9 }));
    assert_eq!(node.handle_event(EventMessage::Other), None);
}

#[test]
fn startup_runs_the_recoveries_in_order() {
    let mut node = node();
    assert_eq!(node.phase(), SyncPhase::Idle);
    assert_eq!(node.start(), SyncAction::RecoverState);
    assert_eq!(node.phase(), SyncPhase::RecoveringState);
    assert_eq!(node.advance(SyncEvent::Completed), SyncAction::RecoverFromBlobStore);
    assert_eq!(node.advance(SyncEvent::Completed), SyncAction::RecoverBacklog);
    assert_eq!(node.advance(SyncEvent::Completed), SyncAction::Subscribe);
    assert_eq!(node.advance(SyncEvent::Completed), SyncAction::Listen);
    assert_eq!(node.phase(), SyncPhase::Live);
}

#[test]
fn a_failed_recovery_ends_the_startup() {
    for completed in 0..3 {
        let mut node = node();
        node.start();
        for _ in 0..completed {
            node.advance(SyncEvent::Completed);
        }
        assert_eq!(node.advance(SyncEvent::Failed), SyncAction::Stop);
        assert_eq!(node.phase(), SyncPhase::Failed);
        assert_eq!(node.advance(SyncEvent::Completed), SyncAction::Stop);
        assert_eq!(node.phase(), SyncPhase::Failed);
    }
}

#[test]
fn a_failed_subscription_is_opened_again_after_five_seconds() {
    let mut node = node();
    node.start();
    for _ in 0..4 {
        node.advance(SyncEvent::Completed);
    }
    assert_eq!(node.phase(), SyncPhase::Live);
    let batches = [
        vec![fetched(1, 0, 0)],
        vec![fetched(1, 0, 0), fetched(2, 0, 1)],
        vec![fetched(2, 0, 1), fetched(3, 0, 2)],
    ];
    for (i, batch) in batches.iter().enumerate() {
        let event = EventMessage::BlockEvent { block_id: i as u64 + 1, mutation_count: 1 };
        assert!(node.handle_event(event).is_some());
        assert_eq!(node.parse_and_apply_mutations(batch), Ok(()));
    }
    let before = ledger(&node);
    assert_eq!(before.len(), 3);
    assert_eq!(node.advance(SyncEvent::Failed), SyncAction::Sleep { millis: 5000 });
    assert_eq!(node.phase(), SyncPhase::Backoff);
    assert_eq!(node.advance(SyncEvent::Completed), SyncAction::Subscribe);
    assert_eq!(node.advance(SyncEvent::Failed), SyncAction::Sleep { millis: 5000 });
    assert_eq!(node.advance(SyncEvent::Completed), SyncAction::Subscribe);
    assert_eq!(node.advance(SyncEvent::Completed), SyncAction::Listen);
    let event = EventMessage::BlockEvent { block_id: 4, mutation_count: 1 };
    assert_eq!(node.handle_event(event), Some(BlockRange { start: 3, end: 4 }));
    assert_eq!(node.parse_and_apply_mutations(&vec![fetched(3, 0, 2), fetched(4, 0, 3)]), Ok(()));
    let after = ledger(&node);
    assert_eq!(after.len(), 4);
    assert_eq!(after[..3], before[..]);
    assert_eq!(node.advance(SyncEvent::Completed), SyncAction::Subscribe);
    assert_eq!(node.phase(), SyncPhase::Subscribing);
}

#[test]
fn registry_takes_one_listener_for_each_contract() {
    let mut registry = ProcessorRegistry::new();
    let config = EventProcessorConfig {
        evm_node_url: "ws://evm".to_string(),
        db_addr: "0x01".to_string(),
        abi: "[]".to_string(),
        target_events: vec!["Transfer".to_string()],
        contract_addr: "0xc1".to_string(),
        start_block: 5,
    };
    assert_eq!(registry.register(config.clone()), Ok(()));
    let mut other_db = config.clone();
    other_db.db_addr = "0x02".to_string();
    assert_eq!(registry.register(other_db), Err(NodeError::AlreadyRegistered));
    assert_eq!(registry.len(), 1);
    let mut other_contract = config.clone();
    other_contract.contract_addr = "0xc2".to_string();
    assert_eq!(registry.register(other_contract), Ok(()));
    assert_eq!(registry.len(), 2);
    assert!(registry.contains(&"0xc1".to_string()));
    assert!(!registry.contains(&"0xC1".to_string()));
    assert_eq!(registry.position(&"0xc2".to_string()), Some(1));
    assert!(registry.record_progress(&"0xc2".to_string(), 120, 7));
    assert!(!registry.record_progress(&"0xc3".to_string(), 1, 1));
    assert_eq!(
        registry.snapshot_status(),
        vec![
            ContractSyncStatus {
                addr: "0xc1".to_string(),
                evm_node_url: "ws://evm".to_string(),
                block_number: 0,
                event_number: 0,
            },
            ContractSyncStatus {
                addr: "0xc2".to_string(),
                evm_node_url: "ws://evm".to_string(),
                block_number: 120,
                event_number: 7,
            },
        ]
    );
}

fn task(tag: u8, contract: &str) -> EventProcessorConfig {
    EventProcessorConfig {
        evm_node_url: format!("ws://evm-{tag}"),
        db_addr: format!("0x{}", format!("{tag:02x}").repeat(20)),
        abi: "[]".to_string(),
        target_events: vec!["Transfer".to_string(), "Approval".to_string()],
        contract_addr: contract.to_string(),
        start_block: 0,
    }
}

#[test]
fn every_database_asks_for_a_listener_from_block_zero() {
    let mut node = node();
    assert!(node.event_tasks().is_empty());
    assert_eq!(node.add_event_db(event_db(0xab, "0xc1")), Ok(()));
    assert_eq!(node.add_event_db(event_db(0xcd, "0xc1")), Ok(()));
    assert_eq!(node.add_event_db(event_db(0xef, "0xc2")), Ok(()));
    let mut short = event_db(1, "0xc3");
    short.address = vec![1; 19];
    assert_eq!(node.add_event_db(short), Err(NodeError::StorageError));
    assert_eq!(
        node.event_tasks(),
        vec![task(0xab, "0xc1"), task(0xcd, "0xc1"), task(0xef, "0xc2")]
    );
    assert!(node.get_contract_sync_status().is_empty());
}

#[test]
fn recovering_the_state_registers_every_built_listener_once() {
    let mut node = node();
    let built = vec![task(0xab, "0xc1"), task(0xcd, "0xc1"), task(0xef, "0xc2")];
    let listeners = node.recover_state(&built);
    assert_eq!(listeners, vec![task(0xab, "0xc1"), task(0xef, "0xc2")]);
    let status = node.get_contract_sync_status();
    assert_eq!(status.len(), 2);
    assert_eq!(status[0].addr, "0xc1");
    assert_eq!(status[1].addr, "0xc2");
    assert!(node.recover_state(&built).is_empty());
    assert_eq!(node.get_contract_sync_status().len(), 2);
}

#[test]
fn a_listener_that_was_not_built_leaves_its_contract_free() {
    let mut node = node();
    let built = vec![task(0xef, "0xc2")];
    assert_eq!(node.recover_state(&built), vec![task(0xef, "0xc2")]);
    assert_eq!(node.get_contract_sync_status().len(), 1);
    assert_eq!(node.start_an_event_task(task(0xab, "0xc1")), Ok(()));
    assert_eq!(node.get_contract_sync_status().len(), 2);
}

#[test]
fn unreadable_document_ids_stop_the_batch() {
    let mut node = node();
    let mut unread = fetched(2, 0, 1);
    unread.doc_ids = None;
    let batch = vec![fetched(1, 0, 0), unread, fetched(3, 0, 2)];
    assert_eq!(node.parse_and_apply_mutations(&batch), Err(NodeError::WriteStoreError));
    assert_eq!(ledger(&node), vec![entry(1, 0, MutationAction::CreateDatabase)]);
    assert_eq!(ledger(&node)[0].doc_ids, vec![vec![1, 0], vec![]]);
}

#[test]
fn a_ledger_that_holds_mutations_takes_a_stream_as_its_sorted_form() {
    let stream = vec![
        fetched(1, 1, 1),
        fetched(2, 0, 2),
        fetched(1, 1, 1),
        fetched(2, 5, 3),
        fetched(2, 0, 2),
        fetched(7, 0, 4),
    ];
    let sorted = vec![fetched(1, 1, 1), fetched(2, 0, 2), fetched(2, 5, 3), fetched(7, 0, 4)];
    for held in [vec![], vec![fetched(1, 0, 0)], vec![fetched(2, 0, 2)], vec![fetched(9, 9, 0)]] {
        let mut by_stream = node();
        let mut by_sorted = node();
        assert_eq!(by_stream.parse_and_apply_mutations(&held), Ok(()));
        assert_eq!(by_sorted.parse_and_apply_mutations(&held), Ok(()));
        assert_eq!(by_stream.parse_and_apply_mutations(&stream), Ok(()));
        assert_eq!(by_sorted.parse_and_apply_mutations(&sorted), Ok(()));
        assert_eq!(ledger(&by_stream), ledger(&by_sorted));
    }
}

#[test]
fn an_event_task_is_refused_for_a_contract_that_has_one() {
    let mut node = node();
    let tables = vec!["Transfer".to_string()];
    let config =
        IndexerNodeImpl::event_task(&vec![0x0a; 20], "ws://evm", "[]", &tables, "0xc1", 12);
    assert_eq!(
        config,
        EventProcessorConfig {
            evm_node_url: "ws://evm".to_string(),
            db_addr: format!("0x{}", "0a".repeat(20)),
            abi: "[]".to_string(),
            target_events: tables.clone(),
            contract_addr: "0xc1".to_string(),
            start_block: 12,
        }
    );
    assert!(node.get_contract_sync_status().is_empty());
    assert_eq!(node.start_an_event_task(config), Ok(()));
    let other =
        IndexerNodeImpl::event_task(&vec![0x0b; 20], "ws://other", "[]", &tables, "0xc1", 0);
    assert_eq!(node.start_an_event_task(other), Err(NodeError::AlreadyRegistered));
    assert_eq!(node.get_contract_sync_status().len(), 1);
    assert!(node.record_progress(&"0xc1".to_string(), 33, 4));
    assert_eq!(
        node.get_contract_sync_status(),
        vec![ContractSyncStatus {
            addr: "0xc1".to_string(),
            evm_node_url: "ws://evm".to_string(),
            block_number: 33,
            event_number: 4,
        }]
    );
}
