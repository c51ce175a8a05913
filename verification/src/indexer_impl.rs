//! The indexer: it brings the document store up to date with the primary
//! node, keeps it so while blocks arrive, starts one listener for each
//! database that is bound to a contract, and answers the service requests.
//!
//! The indexer does no I/O. It says what is to be fetched, opened or waited
//! for, and is told what came of it.

use vstd::prelude::*;
use crate::doc_store::{
    apply_all,
    copy_id_lists,
    database_views,
    id_lists,
    watermark,
    AppliedMutation,
    AppliedMutationView,
    DocStore,
    DocStoreView,
    EventDatabase,
    EventDatabaseView,
};
use crate::encoding::{evm_address_of, hex_prefixed, parse_evm_address, to_prefixed_hex};
use crate::error::NodeError;
use crate::mutation_verifier::{
    verdict,
    verify,
    verify_admin,
    AdminRecovery,
    Recovery,
    ADDRESS_LEN,
};
use crate::registry::{
    duplicate_names,
    has_address,
    reported,
    status_views,
    ContractSyncStatus,
    EventProcessorConfig,
    EventProcessorConfigView,
    ProcessorHandleView,
    ProcessorRegistry,
};
use crate::rollup_executor::{SystemConfig, SystemConfigView};

verus! {

/// How many blocks one request of the backlog asks for, and by how many the
/// cursor moves on after it.
pub const FETCH_STRIDE: u64 = 1000;

/// How long to wait before subscribing again after the subscription failed,
/// in milliseconds.
pub const RESUBSCRIBE_DELAY_MS: u64 = 5000;

/// How a service request has failed.
#[derive(Debug, Clone, Copy, PartialEq, Eq, Structural)]
pub enum StatusCode {
    InvalidArgument,
    PermissionDenied,
    Internal,
}

/// Where a mutation stands in the stream, as the primary node assigned it.
#[derive(Debug, Clone, PartialEq, Eq)]
pub struct MutationHeader {
    pub block_id: u64,
    pub order_id: u32,
    pub doc_ids_map: String,
    pub network: u64,
}

/// A mutation as it was fetched from the primary node, with what the
/// cryptographic check of its body found and what the document ids of its
/// header were read as.
#[derive(Debug, Clone, PartialEq, Eq)]
pub struct FetchedMutation {
    pub header: Option<MutationHeader>,
    pub recovery: Recovery,
    /// The document ids that the text of the header stands for, one list for
    /// each part of the mutation; `None` where the text could not be read.
    pub doc_ids: Option<Vec<Vec<i64>>>,
}

/// A message of the event stream of the primary node.
#[derive(Debug, Clone, Copy, PartialEq, Eq, Structural)]
pub enum EventMessage {
    /// The primary node has closed block `block_id` with `mutation_count`
    /// mutations.
    BlockEvent { block_id: u64, mutation_count: u32 },
    /// Any other message.
    Other,
}

/// The blocks that a request to the primary node asks for.
#[derive(Debug, Clone, Copy, PartialEq, Eq, Structural)]
pub struct BlockRange {
    pub start: u64,
    pub end: u64,
}

/// What the recovery from the blob store is set up with.
#[derive(Debug, Clone, PartialEq, Eq)]
pub struct RecoverConfig {
    pub key_root_path: String,
    pub ar_node_url: String,
    pub temp_data_path: String,
    pub contract_addr: String,
    pub evm_node_url: String,
    pub enable_mutation_recover: bool,
}

/// The mathematical value of a [`RecoverConfig`].
pub ghost struct RecoverConfigView {
    pub key_root_path: Seq<char>,
    pub ar_node_url: Seq<char>,
    pub temp_data_path: Seq<char>,
    pub contract_addr: Seq<char>,
    pub evm_node_url: Seq<char>,
    pub enable_mutation_recover: bool,
}

impl View for RecoverConfig {
    type V = RecoverConfigView;

    open spec fn view(&self) -> RecoverConfigView {
        RecoverConfigView {
            key_root_path: self.key_root_path@,
            ar_node_url: self.ar_node_url@,
            temp_data_path: self.temp_data_path@,
            contract_addr: self.contract_addr@,
            evm_node_url: self.evm_node_url@,
            enable_mutation_recover: self.enable_mutation_recover,
        }
    }
}

/// What the recovery from the blob store is to do: replay every rollup blob
/// that ends after block `from_block`.
#[derive(Debug, Clone, PartialEq, Eq)]
pub struct RecoverPlan {
    pub config: RecoverConfig,
    pub network_id: u64,
    pub chain_id: u32,
    pub from_block: u64,
}

/// The answer to a successful administrative setup.
#[derive(Debug, Clone, PartialEq, Eq)]
pub struct SetupResponse {
    pub code: i32,
    pub msg: String,
}

/// What the node reports of itself.
#[derive(Debug, Clone, PartialEq, Eq)]
pub struct SystemStatus {
    pub evm_account: String,
    pub evm_balance: String,
    pub ar_account: String,
    pub ar_balance: String,
    pub node_url: String,
    pub config: Option<SystemConfig>,
    pub has_inited: bool,
    pub admin_addr: String,
    pub version: String,
}

/// Where the indexer stands in its life.
#[derive(Debug, Clone, Copy, PartialEq, Eq, Structural)]
pub enum SyncPhase {
    /// Not started.
    Idle,
    /// Reloading the document store and starting the listeners.
    RecoveringState,
    /// Replaying rollup blobs from the blob store.
    RecoveringFromBlobStore,
    /// Fetching the blocks that the primary node has beyond the watermark.
    RecoveringBacklog,
    /// Opening the event stream of the primary node.
    Subscribing,
    /// Following the event stream.
    Live,
    /// Waiting before subscribing again.
    Backoff,
    /// Startup has failed for good.
    Failed,
}

/// How the step that the indexer asked for has ended.
#[derive(Debug, Clone, Copy, PartialEq, Eq, Structural)]
pub enum SyncEvent {
    /// It was carried out; of a stream: it has ended.
    Completed,
    /// It has failed.
    Failed,
}

/// What the indexer asks to be done next.
#[derive(Debug, Clone, Copy, PartialEq, Eq, Structural)]
pub enum SyncAction {
    /// Reload the document store, then start the listeners that
    /// `recover_state` names.
    RecoverState,
    /// Replay the rollup blobs as `recover_from_ar` says.
    RecoverFromBlobStore,
    /// Fetch the backlog, beginning with `recover_from_fetched_blocks`.
    RecoverBacklog,
    /// Open the event stream.
    Subscribe,
    /// Hand every message of the stream to `handle_event`.
    Listen,
    /// Wait for so many milliseconds.
    Sleep { millis: u64 },
    /// Give up: startup has failed.
    Stop,
}

/// The phase that follows `phase` on `event`, with what is to be done in it.
/// The recoveries follow each other in a fixed order and a failure of one of
/// them ends the startup. Once the indexer subscribes it never stops: a
/// stream that ends is opened again at once, one that fails after a wait.
pub open spec fn sync_step(phase: SyncPhase, event: SyncEvent) -> (SyncPhase, SyncAction) {
    match phase {
        SyncPhase::Idle => (SyncPhase::RecoveringState, SyncAction::RecoverState),
        SyncPhase::RecoveringState => match event {
            SyncEvent::Completed => (
                SyncPhase::RecoveringFromBlobStore,
                SyncAction::RecoverFromBlobStore,
            ),
            SyncEvent::Failed => (SyncPhase::Failed, SyncAction::Stop),
        },
        SyncPhase::RecoveringFromBlobStore => match event {
            SyncEvent::Completed => (SyncPhase::RecoveringBacklog, SyncAction::RecoverBacklog),
            SyncEvent::Failed => (SyncPhase::Failed, SyncAction::Stop),
        },
        SyncPhase::RecoveringBacklog => match event {
            SyncEvent::Completed => (SyncPhase::Subscribing, SyncAction::Subscribe),
            SyncEvent::Failed => (SyncPhase::Failed, SyncAction::Stop),
        },
        SyncPhase::Subscribing => match event {
            SyncEvent::Completed => (SyncPhase::Live, SyncAction::Listen),
            SyncEvent::Failed => (
                SyncPhase::Backoff,
                SyncAction::Sleep { millis: RESUBSCRIBE_DELAY_MS },
            ),
        },
        SyncPhase::Live => match event {
            SyncEvent::Completed => (SyncPhase::Subscribing, SyncAction::Subscribe),
            SyncEvent::Failed => (
                SyncPhase::Backoff,
                SyncAction::Sleep { millis: RESUBSCRIBE_DELAY_MS },
            ),
        },
        SyncPhase::Backoff => (SyncPhase::Subscribing, SyncAction::Subscribe),
        SyncPhase::Failed => (SyncPhase::Failed, SyncAction::Stop),
    }
}

/// Whether the indexer has entered the live subscription.
pub open spec fn is_subscribed(phase: SyncPhase) -> bool {
    phase is Subscribing || phase is Live || phase is Backoff
}

/// The live subscription is never left, whatever happens to the stream.
pub proof fn lemma_subscription_is_kept(phase: SyncPhase, event: SyncEvent)
    requires
        is_subscribed(phase),
    ensures
        is_subscribed(sync_step(phase, event).0),
        sync_step(phase, event).1 !is Stop,
{
}

/// The end of the request that starts at block `start`: a stride further, or
/// the last block there is.
pub open spec fn stride_end(start: u64) -> u64 {
    if start <= u64::MAX - FETCH_STRIDE {
        (start + FETCH_STRIDE) as u64
    } else {
        u64::MAX
    }
}

/// The block of the watermark, or 0 where nothing was applied.
pub open spec fn watermark_block(log: Seq<AppliedMutationView>) -> u64 {
    match watermark(log) {
        Some(state) => state.block,
        None => 0,
    }
}

/// The ledger entry that a fetched mutation becomes, or `WriteStoreError`
/// where the mutation has no header, is refused by the verifier, or has
/// document ids that could not be read.
pub open spec fn entry_of(m: FetchedMutation) -> Result<AppliedMutationView, NodeError> {
    match (m.header, verdict(m.recovery), m.doc_ids) {
        (Some(header), Ok(verified), Some(ids)) => Ok(
            AppliedMutationView {
                block: header.block_id,
                order: header.order_id,
                network: header.network,
                action: verified.action,
                signer: verified.signer,
                nonce: verified.nonce,
                body: verified.body,
                doc_ids: id_lists(ids@),
            },
        ),
        _ => Err(NodeError::WriteStoreError),
    }
}

/// The entries of the fetched mutations that come before the first one that
/// is refused.
pub open spec fn accepted(ms: Seq<FetchedMutation>) -> Seq<AppliedMutationView>
    decreases ms.len(),
{
    if ms.len() == 0 {
        Seq::empty()
    } else {
        match entry_of(ms.first()) {
            Ok(entry) => seq![entry] + accepted(ms.drop_first()),
            Err(_) => Seq::empty(),
        }
    }
}

/// Whether none of the fetched mutations is refused.
pub open spec fn all_accepted(ms: Seq<FetchedMutation>) -> bool {
    forall|i: int| 0 <= i < ms.len() ==> (#[trigger] entry_of(ms[i])) is Ok
}

/// The listener that a database descriptor asks for. It starts at block 0:
/// where to go on from is the listener's own business.
pub open spec fn listener_of(db: EventDatabaseView) -> EventProcessorConfigView {
    EventProcessorConfigView {
        evm_node_url: db.evm_node_url,
        db_addr: hex_prefixed(db.address),
        abi: db.events_json_abi,
        target_events: db.tables,
        contract_addr: db.contract_address,
        start_block: 0,
    }
}

/// The listeners that the database descriptors ask for, in their order.
pub open spec fn listeners_of(dbs: Seq<EventDatabaseView>) -> Seq<EventProcessorConfigView> {
    Seq::new(dbs.len(), |i: int| listener_of(dbs[i]))
}

/// The registry after each of the listeners was registered whose contract had
/// none yet.
pub open spec fn registered_all(
    entries: Seq<ProcessorHandleView>,
    configs: Seq<EventProcessorConfigView>,
) -> Seq<ProcessorHandleView>
    decreases configs.len(),
{
    if configs.len() == 0 {
        entries
    } else {
        let before = registered_all(entries, configs.drop_last());
        let config = configs.last();
        if has_address(before, config.contract_addr) {
            before
        } else {
            before.push(ProcessorHandleView { config, block_number: 0, event_number: 0 })
        }
    }
}

/// Those of the listeners that were registered, in their order.
pub open spec fn started_all(
    entries: Seq<ProcessorHandleView>,
    configs: Seq<EventProcessorConfigView>,
) -> Seq<EventProcessorConfigView>
    decreases configs.len(),
{
    if configs.len() == 0 {
        Seq::empty()
    } else {
        let before = registered_all(entries, configs.drop_last());
        let config = configs.last();
        if has_address(before, config.contract_addr) {
            started_all(entries, configs.drop_last())
        } else {
            started_all(entries, configs.drop_last()).push(config)
        }
    }
}

/// The configuration that the node reports: the network, the chain and the
/// nodes that the indexer works with. The indexer rolls nothing up, so the
/// thresholds of the rollup are 0.
pub open spec fn reported_config(node: IndexerView) -> SystemConfigView {
    SystemConfigView {
        min_rollup_size: 0,
        rollup_interval: 0,
        rollup_max_interval: 0,
        network_id: node.network_id,
        chain_id: node.chain_id,
        evm_node_url: node.evm_node_url,
        ar_node_url: node.recover_config.ar_node_url,
        contract_addr: node.contract_addr,
        min_gc_offset: 0,
    }
}

/// The values of a sequence of listener configurations.
pub open spec fn config_views(s: Seq<EventProcessorConfig>) -> Seq<EventProcessorConfigView> {
    Seq::new(s.len(), |i: int| s[i]@)
}

/// The mathematical value of an [`IndexerNodeImpl`].
pub ghost struct IndexerView {
    pub db_store: DocStoreView,
    pub recover_config: RecoverConfigView,
    pub network_id: u64,
    pub chain_id: u32,
    pub node_url: Seq<char>,
    pub key_root_path: Seq<char>,
    pub contract_addr: Seq<char>,
    pub evm_node_url: Seq<char>,
    pub processor_mapping: Seq<ProcessorHandleView>,
    pub admin_addr: Seq<char>,
    /// Whether an administrator has set the node up.
    pub has_inited: bool,
    pub phase: SyncPhase,
}

/// The indexer node.
pub struct IndexerNodeImpl {
    db_store: DocStore,
    recover_config: RecoverConfig,
    network_id: u64,
    chain_id: u32,
    node_url: String,
    key_root_path: String,
    contract_addr: String,
    evm_node_url: String,
    processor_mapping: ProcessorRegistry,
    admin_addr: String,
    has_inited: bool,
    phase: SyncPhase,
}

impl View for IndexerNodeImpl {
    type V = IndexerView;

    closed spec fn view(&self) -> IndexerView {
        IndexerView {
            db_store: self.db_store@,
            recover_config: self.recover_config@,
            network_id: self.network_id,
            chain_id: self.chain_id,
            node_url: self.node_url@,
            key_root_path: self.key_root_path@,
            contract_addr: self.contract_addr@,
            evm_node_url: self.evm_node_url@,
            processor_mapping: self.processor_mapping@,
            admin_addr: self.admin_addr@,
            has_inited: self.has_inited,
            phase: self.phase,
        }
    }
}

/// What a setup request comes to, given the address that the configured
/// administrator text stands for: the network to switch to, or the failure.
pub open spec fn setup_outcome(recovery: AdminRecovery, admin: Option<Seq<u8>>) -> Result<
    u64,
    StatusCode,
> {
    match recovery {
        AdminRecovery::Malformed => Err(StatusCode::InvalidArgument),
        AdminRecovery::BadSignature => Err(StatusCode::InvalidArgument),
        AdminRecovery::Signed { signer, network } => {
            if signer@.len() != ADDRESS_LEN {
                Err(StatusCode::InvalidArgument)
            } else {
                match admin {
                    None => Err(StatusCode::Internal),
                    Some(a) => {
                        if signer@ != a {
                            Err(StatusCode::PermissionDenied)
                        } else {
                            Ok(
                                match network {
                                    Some(n) => n,
                                    None => 0,
                                },
                            )
                        }
                    },
                }
            }
        },
    }
}

impl IndexerNodeImpl {
    /// The invariant of the indexer: those of its document store and of its
    /// registry.
    pub open spec fn wf(&self) -> bool {
        self@.db_store.wf() && crate::registry::addresses_distinct(self@.processor_mapping)
    }

    /// An indexer over `db_store` that has not started and has no listeners.
    pub fn new(
        db_store: DocStore,
        network_id: u64,
        chain_id: u32,
        node_url: String,
        ar_node_url: String,
        key_root_path: String,
        contract_addr: String,
        evm_node_url: String,
        admin_addr: String,
        recover_data_path: String,
    ) -> (node: IndexerNodeImpl)
        requires
            db_store.wf(),
        ensures
            node.wf(),
            node@ == (IndexerView {
                db_store: db_store@,
                recover_config: RecoverConfigView {
                    key_root_path: key_root_path@,
                    ar_node_url: ar_node_url@,
                    temp_data_path: recover_data_path@,
                    contract_addr: contract_addr@,
                    evm_node_url: evm_node_url@,
                    enable_mutation_recover: true,
                },
                network_id,
                chain_id,
                node_url: node_url@,
                key_root_path: key_root_path@,
                contract_addr: contract_addr@,
                evm_node_url: evm_node_url@,
                processor_mapping: Seq::empty(),
                admin_addr: admin_addr@,
                has_inited: false,
                phase: SyncPhase::Idle,
            }),
    {
        let recover_config = RecoverConfig {
            key_root_path: key_root_path.clone(),
            ar_node_url,
            temp_data_path: recover_data_path,
            contract_addr: contract_addr.clone(),
            evm_node_url: evm_node_url.clone(),
            enable_mutation_recover: true,
        };
        IndexerNodeImpl {
            db_store,
            recover_config,
            network_id,
            chain_id,
            node_url,
            key_root_path,
            contract_addr,
            evm_node_url,
            processor_mapping: ProcessorRegistry::new(),
            admin_addr,
            has_inited: false,
            phase: SyncPhase::Idle,
        }
    }

    /// The document store of the indexer.
    pub fn db_store(&self) -> (store: &DocStore)
        ensures
            store@ == self@.db_store,
    {
        &self.db_store
    }

    /// The network that the indexer works for.
    pub fn network_id(&self) -> (id: u64)
        ensures
            id == self@.network_id,
    {
        self.network_id
    }

    /// Where the indexer stands in its life.
    pub fn phase(&self) -> (phase: SyncPhase)
        ensures
            phase == self@.phase,
    {
        self.phase
    }

    /// Adds the descriptor of a database that is bound to a contract to the
    /// document store, as [`DocStore::add_event_db`] does.
    pub fn add_event_db(&mut self, db: EventDatabase) -> (res: Result<(), NodeError>)
        requires
            old(self).wf(),
        ensures
            final(self).wf(),
            final(self)@ == (IndexerView { db_store: final(self)@.db_store, ..old(self)@ }),
            db@.address.len() == ADDRESS_LEN ==> res is Ok && final(self)@.db_store
                == (DocStoreView {
                event_dbs: old(self)@.db_store.event_dbs.push(db@),
                ..old(self)@.db_store
            }),
            db@.address.len() != ADDRESS_LEN ==> res == Err::<(), NodeError>(
                NodeError::StorageError,
            ) && final(self)@ == old(self)@,
    {
        self.db_store.add_event_db(db)
    }

    /// The listeners to build, one for every database that is bound to a
    /// contract, each starting at block 0. Nothing is registered.
    pub fn event_tasks(&self) -> (tasks: Vec<EventProcessorConfig>)
        ensures
            config_views(tasks@) == listeners_of(self@.db_store.event_dbs),
    {
        let dbs = self.db_store.get_all_event_db();
        let mut tasks: Vec<EventProcessorConfig> = Vec::new();
        let mut i: usize = 0;
        while i < dbs.len()
            invariant
                i <= dbs.len(),
                database_views(dbs@) == self@.db_store.event_dbs,
                tasks@.len() == i,
                forall|k: int|
                    0 <= k < i ==> (#[trigger] tasks@[k])@ == listener_of(
                        self@.db_store.event_dbs[k],
                    ),
            decreases dbs.len() - i,
        {
            let db = &dbs[i];
            assert(db@ == self@.db_store.event_dbs[i as int]);
            let task = IndexerNodeImpl::event_task(
                &db.address,
                db.evm_node_url.as_str(),
                db.events_json_abi.as_str(),
                &db.tables,
                db.contract_address.as_str(),
                0,
            );
            tasks.push(task);
            i = i + 1;
        }
        assert(database_views(dbs@).len() == dbs@.len());
        assert(config_views(tasks@) =~= listeners_of(self@.db_store.event_dbs));
        tasks
    }

    /// Registers the listeners that were built for the databases, and returns
    /// those that were registered, which are to be started. A listener whose
    /// contract has one already is passed over, and the others are still
    /// registered.
    pub fn recover_state(&mut self, built: &Vec<EventProcessorConfig>) -> (listeners: Vec<
        EventProcessorConfig,
    >)
        requires
            old(self).wf(),
        ensures
            final(self).wf(),
            final(self)@ == (IndexerView {
                processor_mapping: registered_all(
                    old(self)@.processor_mapping,
                    config_views(built@),
                ),
                ..old(self)@
            }),
            config_views(listeners@) == started_all(
                old(self)@.processor_mapping,
                config_views(built@),
            ),
    {
        let ghost before = self@;
        let ghost all = config_views(built@);
        let mut listeners: Vec<EventProcessorConfig> = Vec::new();
        let mut i: usize = 0;
        proof {
            assert(all.take(0) =~= Seq::empty());
            assert(config_views(listeners@) =~= Seq::empty());
        }
        while i < built.len()
            invariant
                i <= built.len(),
                self.wf(),
                all == config_views(built@),
                self@ == (IndexerView {
                    processor_mapping: registered_all(
                        before.processor_mapping,
                        all.take(i as int),
                    ),
                    ..before
                }),
                config_views(listeners@) == started_all(
                    before.processor_mapping,
                    all.take(i as int),
                ),
            decreases built.len() - i,
        {
            let ghost held = config_views(listeners@);
            proof {
                assert(built@[i as int]@ == all[i as int]);
                assert(all.take(i + 1).drop_last() =~= all.take(i as int));
                assert(all.take(i + 1).last() == all[i as int]);
            }
            let config = built[i].duplicate();
            let started = built[i].duplicate();
            match self.processor_mapping.register(config) {
                Ok(()) => {
                    listeners.push(started);
                    assert(config_views(listeners@) =~= held.push(started@));
                },
                Err(_) => {},
            }
            i = i + 1;
        }
        assert(all.take(i as int) =~= all);
        listeners
    }

    /// Starts the life of the indexer: the recovery of the local state comes
    /// first.
    pub fn start(&mut self) -> (action: SyncAction)
        requires
            old(self).wf(),
        ensures
            final(self).wf(),
            final(self)@ == (IndexerView { phase: SyncPhase::RecoveringState, ..old(self)@ }),
            action == SyncAction::RecoverState,
    {
        self.phase = SyncPhase::RecoveringState;
        SyncAction::RecoverState
    }

    /// Moves on after the step that was asked for last has ended, and says
    /// what is to be done next.
    pub fn advance(&mut self, event: SyncEvent) -> (action: SyncAction)
        requires
            old(self).wf(),
        ensures
            final(self).wf(),
            final(self)@ == (IndexerView {
                phase: sync_step(old(self)@.phase, event).0,
                ..old(self)@
            }),
            action == sync_step(old(self)@.phase, event).1,
    {
        let (phase, action): (SyncPhase, SyncAction) = match self.phase {
            SyncPhase::Idle => (SyncPhase::RecoveringState, SyncAction::RecoverState),
            SyncPhase::RecoveringState => match event {
                SyncEvent::Completed => (
                    SyncPhase::RecoveringFromBlobStore,
                    SyncAction::RecoverFromBlobStore,
                ),
                SyncEvent::Failed => (SyncPhase::Failed, SyncAction::Stop),
            },
            SyncPhase::RecoveringFromBlobStore => match event {
                SyncEvent::Completed => (SyncPhase::RecoveringBacklog, SyncAction::RecoverBacklog),
                SyncEvent::Failed => (SyncPhase::Failed, SyncAction::Stop),
            },
            SyncPhase::RecoveringBacklog => match event {
                SyncEvent::Completed => (SyncPhase::Subscribing, SyncAction::Subscribe),
                SyncEvent::Failed => (SyncPhase::Failed, SyncAction::Stop),
            },
            SyncPhase::Subscribing => match event {
                SyncEvent::Completed => (SyncPhase::Live, SyncAction::Listen),
                SyncEvent::Failed => (
                    SyncPhase::Backoff,
                    SyncAction::Sleep { millis: RESUBSCRIBE_DELAY_MS },
                ),
            },
            SyncPhase::Live => match event {
                SyncEvent::Completed => (SyncPhase::Subscribing, SyncAction::Subscribe),
                SyncEvent::Failed => (
                    SyncPhase::Backoff,
                    SyncAction::Sleep { millis: RESUBSCRIBE_DELAY_MS },
                ),
            },
            SyncPhase::Backoff => (SyncPhase::Subscribing, SyncAction::Subscribe),
            SyncPhase::Failed => (SyncPhase::Failed, SyncAction::Stop),
        };
        self.phase = phase;
        action
    }

    /// What the recovery from the blob store is to do: with the settings of
    /// the indexer, replay every rollup blob that ends after the block of the
    /// watermark, after block 0 where nothing was applied.
    pub fn recover_from_ar(&self) -> (plan: RecoverPlan)
        ensures
            plan.config@ == self@.recover_config,
            plan.network_id == self@.network_id,
            plan.chain_id == self@.chain_id,
            plan.from_block == watermark_block(self@.db_store.applied),
    {
        let from_block: u64 = match self.db_store.recover_block_state() {
            Some(state) => state.block,
            None => 0,
        };
        RecoverPlan {
            config: RecoverConfig {
                key_root_path: self.recover_config.key_root_path.clone(),
                ar_node_url: self.recover_config.ar_node_url.clone(),
                temp_data_path: self.recover_config.temp_data_path.clone(),
                contract_addr: self.recover_config.contract_addr.clone(),
                evm_node_url: self.recover_config.evm_node_url.clone(),
                enable_mutation_recover: self.recover_config.enable_mutation_recover,
            },
            network_id: self.network_id,
            chain_id: self.chain_id,
            from_block,
        }
    }

    /// Whether the rollup blob that ends at block `end_block` is to be
    /// replayed: whether it ends after the block of the watermark.
    pub fn needs_replay(&self, end_block: u64) -> (replay: bool)
        ensures
            replay == (end_block > watermark_block(self@.db_store.applied)),
    {
        let from_block: u64 = match self.db_store.recover_block_state() {
            Some(state) => state.block,
            None => 0,
        };
        end_block > from_block
    }

    /// The first request of the backlog: a stride of blocks from the block of
    /// the watermark on.
    pub fn recover_from_fetched_blocks(&self) -> (request: BlockRange)
        ensures
            request.start == watermark_block(self@.db_store.applied),
            request.end == stride_end(request.start),
    {
        let start: u64 = match self.db_store.recover_block_state() {
            Some(state) => state.block,
            None => 0,
        };
        BlockRange { start, end: next_stride(start) }
    }

    /// Takes what the primary node returned for `request`. An empty answer
    /// ends the recovery of the backlog. Otherwise the mutations are applied
    /// as [`IndexerNodeImpl::parse_and_apply_mutations`] does, and the next
    /// request asks for the stride of blocks behind `request`.
    pub fn continue_recovery(
        &mut self,
        request: BlockRange,
        mutations: &Vec<FetchedMutation>,
    ) -> (res: Result<Option<BlockRange>, NodeError>)
        requires
            old(self).wf(),
        ensures
            final(self).wf(),
            final(self)@ == (IndexerView {
                db_store: DocStoreView {
                    applied: apply_all(old(self)@.db_store.applied, accepted(mutations@)),
                    ..old(self)@.db_store
                },
                ..old(self)@
            }),
            mutations@.len() == 0 ==> res == Ok::<Option<BlockRange>, NodeError>(None),
            mutations@.len() > 0 && all_accepted(mutations@) ==> res == Ok::<
                Option<BlockRange>,
                NodeError,
            >(Some(BlockRange { start: request.end, end: stride_end(request.end) })),
            !all_accepted(mutations@) ==> res == Err::<Option<BlockRange>, NodeError>(
                NodeError::WriteStoreError,
            ),
    {
        if mutations.len() == 0 {
            assert(accepted(mutations@) =~= Seq::empty());
            assert(self@.db_store.applied =~= apply_all(
                self@.db_store.applied,
                accepted(mutations@),
            ));
            return Ok(None);
        }
        match self.parse_and_apply_mutations(mutations) {
            Ok(()) => Ok(Some(BlockRange { start: request.end, end: next_stride(request.end) })),
            Err(e) => Err(e),
        }
    }

    /// Says what to fetch on a message of the event stream: on a block event
    /// the blocks from the block of the watermark to the block of the event,
    /// on any other message nothing.
    pub fn handle_event(&self, event: EventMessage) -> (request: Option<BlockRange>)
        ensures
            request == match event {
                EventMessage::BlockEvent { block_id, mutation_count } => Some(
                    BlockRange {
                        start: watermark_block(self@.db_store.applied),
                        end: block_id,
                    },
                ),
                EventMessage::Other => None::<BlockRange>,
            },
    {
        match event {
            EventMessage::BlockEvent { block_id, mutation_count } => {
                let start: u64 = match self.db_store.recover_block_state() {
                    Some(state) => state.block,
                    None => 0,
                };
                Some(BlockRange { start, end: block_id })
            },
            EventMessage::Other => None,
        }
    }

    /// What the listener for the events of a contract is to be built with.
    pub fn event_task(
        db: &Vec<u8>,
        evm_node_url: &str,
        abi: &str,
        tables: &Vec<String>,
        contract_address: &str,
        start_block: u64,
    ) -> (config: EventProcessorConfig)
        ensures
            config@ == (EventProcessorConfigView {
                evm_node_url: evm_node_url@,
                db_addr: hex_prefixed(db@),
                abi: abi@,
                target_events: crate::registry::texts(tables@),
                contract_addr: contract_address@,
                start_block,
            }),
    {
        EventProcessorConfig {
            evm_node_url: evm_node_url.to_owned(),
            db_addr: to_prefixed_hex(db),
            abi: abi.to_owned(),
            target_events: duplicate_names(tables),
            contract_addr: contract_address.to_owned(),
            start_block,
        }
    }

    /// Registers the listener that was built with `config`, with no progress
    /// yet; it is then to be started. Fails with `AlreadyRegistered`,
    /// changing nothing, when the contract has a listener.
    pub fn start_an_event_task(&mut self, config: EventProcessorConfig) -> (res: Result<
        (),
        NodeError,
    >)
        requires
            old(self).wf(),
        ensures
            final(self).wf(),
            has_address(old(self)@.processor_mapping, config@.contract_addr) ==> res == Err::<
                (),
                NodeError,
            >(NodeError::AlreadyRegistered) && final(self)@ == old(self)@,
            !has_address(old(self)@.processor_mapping, config@.contract_addr) ==> res is Ok
                && final(self)@ == (IndexerView {
                processor_mapping: old(self)@.processor_mapping.push(
                    ProcessorHandleView { config: config@, block_number: 0, event_number: 0 },
                ),
                ..old(self)@
            }),
    {
        self.processor_mapping.register(config)
    }

    /// Applies the fetched mutations in their order, each as the verifier
    /// has typed it and at the position of its header, and stops at the first
    /// one that has no header, that the verifier refuses, or whose document
    /// ids could not be read: the mutations before it stay applied and the
    /// call fails with `WriteStoreError`.
    pub fn parse_and_apply_mutations(&mut self, mutations: &Vec<FetchedMutation>) -> (res: Result<
        (),
        NodeError,
    >)
        requires
            old(self).wf(),
        ensures
            final(self).wf(),
            final(self)@ == (IndexerView {
                db_store: DocStoreView {
                    applied: apply_all(old(self)@.db_store.applied, accepted(mutations@)),
                    ..old(self)@.db_store
                },
                ..old(self)@
            }),
            all_accepted(mutations@) ==> res is Ok,
            !all_accepted(mutations@) ==> res == Err::<(), NodeError>(NodeError::WriteStoreError),
    {
        let ghost before = self@;
        let ghost mut done: Seq<AppliedMutationView> = Seq::empty();
        let mut i: usize = 0;
        proof {
            assert(mutations@.skip(0) =~= mutations@);
            assert((done + accepted(mutations@)) =~= accepted(mutations@));
        }
        while i < mutations.len()
            invariant
                i <= mutations.len(),
                self.wf(),
                self@ == (IndexerView {
                    db_store: DocStoreView {
                        applied: apply_all(before.db_store.applied, done),
                        ..before.db_store
                    },
                    ..before
                }),
                before == old(self)@,
                accepted(mutations@) == done + accepted(mutations@.skip(i as int)),
                forall|k: int| 0 <= k < i ==> (#[trigger] entry_of(mutations@[k])) is Ok,
            decreases mutations.len() - i,
        {
            let m = &mutations[i];
            let ghost rest = mutations@.skip(i as int);
            proof {
                assert(rest.first() == mutations@[i as int]);
                assert(rest.drop_first() =~= mutations@.skip(i + 1));
            }
            let header = match &m.header {
                Some(h) => h,
                None => {
                    proof {
                        assert(rest.len() > 0);
                        assert(entry_of(rest.first()) is Err);
                        assert(accepted(rest) =~= Seq::empty());
                        assert((done + accepted(rest)) =~= done);
                        assert(accepted(mutations@) == done);
                    }
                    return Err(NodeError::WriteStoreError);
                },
            };
            let verified = match verify(&m.recovery) {
                Ok(v) => v,
                Err(_) => {
                    proof {
                        assert(rest.len() > 0);
                        assert(entry_of(rest.first()) is Err);
                        assert(accepted(rest) =~= Seq::empty());
                        assert((done + accepted(rest)) =~= done);
                        assert(accepted(mutations@) == done);
                    }
                    return Err(NodeError::WriteStoreError);
                },
            };
            let doc_ids = match &m.doc_ids {
                Some(ids) => copy_id_lists(ids),
                None => {
                    proof {
                        assert(rest.len() > 0);
                        assert(entry_of(rest.first()) is Err);
                        assert(accepted(rest) =~= Seq::empty());
                        assert((done + accepted(rest)) =~= done);
                        assert(accepted(mutations@) == done);
                    }
                    return Err(NodeError::WriteStoreError);
                },
            };
            let entry = AppliedMutation {
                block: header.block_id,
                order: header.order_id,
                network: header.network,
                action: verified.action,
                signer: verified.signer,
                nonce: verified.nonce,
                body: verified.body,
                doc_ids,
            };
            proof {
                assert(entry_of(mutations@[i as int]) == Ok::<AppliedMutationView, NodeError>(
                    entry@,
                ));
                assert(done.push(entry@).drop_last() =~= done);
                assert(done + (seq![entry@] + accepted(mutations@.skip(i + 1))) =~= done.push(
                    entry@,
                ) + accepted(mutations@.skip(i + 1)));
                done = done.push(entry@);
            }
            self.db_store.apply_mutation(entry);
            i = i + 1;
        }
        proof {
            assert(accepted(mutations@.skip(i as int)) =~= Seq::empty());
            assert((done + Seq::<AppliedMutationView>::empty()) =~= done);
        }
        Ok(())
    }

    /// The progress of every listener, in the order of registration.
    pub fn get_contract_sync_status(&self) -> (status_list: Vec<ContractSyncStatus>)
        ensures
            status_views(status_list@) == reported(self@.processor_mapping),
    {
        self.processor_mapping.snapshot_status()
    }

    /// Notes how far the listener of the contract `addr` has come. Returns
    /// whether the contract has a listener; without one nothing changes.
    pub fn record_progress(
        &mut self,
        addr: &String,
        block_number: u64,
        event_number: u64,
    ) -> (found: bool)
        requires
            old(self).wf(),
        ensures
            final(self).wf(),
            found == has_address(old(self)@.processor_mapping, addr@),
            final(self)@ == (IndexerView {
                processor_mapping: final(self)@.processor_mapping,
                ..old(self)@
            }),
            !found ==> final(self)@ == old(self)@,
            found ==> exists|at: int|
                0 <= at < old(self)@.processor_mapping.len()
                    && (#[trigger] old(self)@.processor_mapping[at]).config.contract_addr == addr@
                    && final(self)@.processor_mapping == crate::registry::with_progress(
                    old(self)@.processor_mapping,
                    at,
                    block_number,
                    event_number,
                ),
    {
        self.processor_mapping.record_progress(addr, block_number, event_number)
    }

    /// Carries out a setup request, given the address of the administrator.
    /// A request that did not pass the cryptographic check fails with
    /// `InvalidArgument`, one without a known administrator with `Internal`,
    /// one that another account has signed with `PermissionDenied`; in each
    /// of these cases the node stays as it is. Otherwise the network of the
    /// request replaces that of the indexer, and the node counts as set up.
    pub fn setup_as(&mut self, recovery: &AdminRecovery, admin: Option<Vec<u8>>) -> (res: Result<
        SetupResponse,
        StatusCode,
    >)
        requires
            old(self).wf(),
        ensures
            final(self).wf(),
            ({
                let outcome = setup_outcome(
                    *recovery,
                    match admin {
                        Some(a) => Some(a@),
                        None => None,
                    },
                );
                match outcome {
                    Ok(network) => res is Ok && res->Ok_0.code == 0 && res->Ok_0.msg@ == seq![
                        'o',
                        'k',
                    ] && final(self)@ == (IndexerView {
                        network_id: network,
                        has_inited: true,
                        ..old(self)@
                    }),
                    Err(code) => res == Err::<SetupResponse, StatusCode>(code) && final(self)@
                        == old(self)@,
                }
            }),
    {
        let known = match admin {
            Some(a) => a,
            None => {
                return match recovery {
                    AdminRecovery::Signed { signer, network } => {
                        if signer.len() != ADDRESS_LEN {
                            Err(StatusCode::InvalidArgument)
                        } else {
                            Err(StatusCode::Internal)
                        }
                    },
                    _ => Err(StatusCode::InvalidArgument),
                };
            },
        };
        match verify_admin(recovery, &known) {
            Ok(request) => {
                self.network_id = request.network;
                self.has_inited = true;
                proof {
                    reveal_strlit("ok");
                    assert("ok"@ =~= seq!['o', 'k']);
                }
                Ok(SetupResponse { code: 0, msg: "ok".to_owned() })
            },
            Err(NodeError::PermissionDenied) => Err(StatusCode::PermissionDenied),
            Err(_) => Err(StatusCode::InvalidArgument),
        }
    }

    /// Carries out a setup request: reads the configured administrator text
    /// as an address and goes on as [`IndexerNodeImpl::setup_as`] does.
    pub fn setup(&mut self, recovery: &AdminRecovery) -> (res: Result<SetupResponse, StatusCode>)
        requires
            old(self).wf(),
        ensures
            final(self).wf(),
            match setup_outcome(*recovery, evm_address_of(old(self)@.admin_addr)) {
                Ok(network) => res is Ok && res->Ok_0.code == 0 && res->Ok_0.msg@ == seq![
                    'o',
                    'k',
                ] && final(self)@ == (IndexerView {
                        network_id: network,
                        has_inited: true,
                        ..old(self)@
                    }),
                Err(code) => res == Err::<SetupResponse, StatusCode>(code)
                    && final(self)@ == old(self)@,
            },
    {
        let admin = parse_evm_address(self.admin_addr.as_str());
        self.setup_as(recovery, admin)
    }

    /// What the node reports of itself, given the address of its wallet and
    /// the version of the program: its account, its configuration with the
    /// network that the last setup has set, and whether it was set up.
    pub fn get_system_status(&self, wallet_address: &Vec<u8>, version: String) -> (status:
        SystemStatus)
        ensures
            status.evm_account@ == hex_prefixed(wallet_address@),
            status.evm_balance@ == seq!['0'],
            status.ar_account@ == Seq::<char>::empty(),
            status.ar_balance@ == Seq::<char>::empty(),
            status.node_url@ == self@.node_url,
            status.config is Some,
            status.config->0@ == reported_config(self@),
            status.has_inited == self@.has_inited,
            status.admin_addr@ == self@.admin_addr,
            status.version@ == version@,
    {
        proof {
            reveal_strlit("0");
            assert("0"@ =~= seq!['0']);
        }
        SystemStatus {
            evm_account: to_prefixed_hex(wallet_address),
            evm_balance: "0".to_owned(),
            ar_account: String::new(),
            ar_balance: String::new(),
            node_url: self.node_url.clone(),
            config: Some(
                SystemConfig {
                    min_rollup_size: 0,
                    rollup_interval: 0,
                    rollup_max_interval: 0,
                    network_id: self.network_id,
                    chain_id: self.chain_id,
                    evm_node_url: self.evm_node_url.clone(),
                    ar_node_url: self.recover_config.ar_node_url.clone(),
                    contract_addr: self.contract_addr.clone(),
                    min_gc_offset: 0,
                },
            ),
            has_inited: self.has_inited,
            admin_addr: self.admin_addr.clone(),
            version,
        }
    }

    /// Checks a query request before it goes to the document store: the
    /// address of the database must have been read and a query must be
    /// there. Returns the address of the database, or `InvalidArgument`.
    pub fn run_query(&self, db: Option<Vec<u8>>, has_query: bool) -> (res: Result<
        Vec<u8>,
        StatusCode,
    >)
        ensures
            match res {
                Ok(address) => db is Some && db->0@.len() == ADDRESS_LEN && has_query && address@
                    == db->0@,
                Err(code) => code == StatusCode::InvalidArgument && !(db is Some && db->0@.len()
                    == ADDRESS_LEN && has_query),
            },
    {
        match db {
            Some(address) => {
                if address.len() == ADDRESS_LEN && has_query {
                    Ok(address)
                } else {
                    Err(StatusCode::InvalidArgument)
                }
            },
            None => Err(StatusCode::InvalidArgument),
        }
    }
}

/// The end of the request that starts at block `start`.
pub fn next_stride(start: u64) -> (end: u64)
    ensures
        end == stride_end(start),
{
    if start <= u64::MAX - FETCH_STRIDE {
        start + FETCH_STRIDE
    } else {
        u64::MAX
    }
}

} // verus!
