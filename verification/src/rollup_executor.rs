//! The rollup batcher: on every tick it decides whether the mutations that
//! were not rolled up yet are worth a rollup, records a rollup once the blob
//! store and the chain have taken it, and then retires the oldest rolled-up
//! range that is far enough behind.
//!
//! The batcher never talks to the blob store or to the chain itself. A tick is
//! a conversation: [`RollupExecutor::process`] plans the batch,
//! [`RollupExecutor::admit_batch`] holds its serialised size against the
//! threshold, and [`RollupExecutor::commit_rollup`] takes the receipts of the
//! upload and of the chain transaction.

use vstd::prelude::*;
use crate::clock::{elapsed_since, stopwatch, whole_seconds};
use crate::encoding::{hex_prefixed, to_prefixed_hex};
use crate::error::NodeError;
use crate::mutation_store::{
    gc_end,
    in_block_range,
    is_first_after,
    later_rounds,
    last_rollup_end,
    lemma_later_rounds_at,
    lemma_rollups_increasing,
    mutation_views,
    outside_block_range,
    MutationStore,
    MutationView,
    StoreView,
    StoredMutation,
};
use crate::records::{GcRecord, RollupRecord, RollupRecordView};

verus! {

/// Where the batcher keeps its files.
#[derive(Debug, Clone, PartialEq, Eq)]
pub struct RollupExecutorConfig {
    pub temp_data_path: String,
    pub key_root_path: String,
}

/// The mathematical value of a [`RollupExecutorConfig`].
pub ghost struct RollupExecutorConfigView {
    pub temp_data_path: Seq<char>,
    pub key_root_path: Seq<char>,
}

impl View for RollupExecutorConfig {
    type V = RollupExecutorConfigView;

    open spec fn view(&self) -> RollupExecutorConfigView {
        RollupExecutorConfigView {
            temp_data_path: self.temp_data_path@,
            key_root_path: self.key_root_path@,
        }
    }
}

/// The system-wide configuration that an administrator persists.
#[derive(Debug, Clone, PartialEq, Eq)]
pub struct SystemConfig {
    pub min_rollup_size: u64,
    pub rollup_interval: u64,
    pub rollup_max_interval: u64,
    pub network_id: u64,
    pub chain_id: u32,
    pub evm_node_url: String,
    pub ar_node_url: String,
    pub contract_addr: String,
    pub min_gc_offset: u64,
}

/// The mathematical value of a [`SystemConfig`].
pub ghost struct SystemConfigView {
    pub min_rollup_size: u64,
    pub rollup_interval: u64,
    pub rollup_max_interval: u64,
    pub network_id: u64,
    pub chain_id: u32,
    pub evm_node_url: Seq<char>,
    pub ar_node_url: Seq<char>,
    pub contract_addr: Seq<char>,
    pub min_gc_offset: u64,
}

impl View for SystemConfig {
    type V = SystemConfigView;

    open spec fn view(&self) -> SystemConfigView {
        SystemConfigView {
            min_rollup_size: self.min_rollup_size,
            rollup_interval: self.rollup_interval,
            rollup_max_interval: self.rollup_max_interval,
            network_id: self.network_id,
            chain_id: self.chain_id,
            evm_node_url: self.evm_node_url@,
            ar_node_url: self.ar_node_url@,
            contract_addr: self.contract_addr@,
            min_gc_offset: self.min_gc_offset,
        }
    }
}

/// The value of an optional system configuration.
pub open spec fn system_view(system: Option<SystemConfig>) -> Option<SystemConfigView> {
    match system {
        Some(c) => Some(c@),
        None => None,
    }
}

/// What the blob-store client and the chain client are built from. The two
/// halves always come from one system configuration: the batcher replaces the
/// pair as a whole and hands it out as a whole.
#[derive(Debug, Clone, PartialEq, Eq)]
pub struct ClientPair {
    /// Blob store: the node to upload to.
    pub ar_node_url: String,
    /// Blob store: where its wallet is kept.
    pub key_root_path: String,
    /// Blob store: where batches are staged.
    pub temp_data_path: String,
    /// Chain: the rollup contract.
    pub contract_addr: String,
    /// Chain: the node to send transactions to.
    pub evm_node_url: String,
    /// Chain: its identifier.
    pub chain_id: u32,
}

/// The mathematical value of a [`ClientPair`].
pub ghost struct ClientPairView {
    pub ar_node_url: Seq<char>,
    pub key_root_path: Seq<char>,
    pub temp_data_path: Seq<char>,
    pub contract_addr: Seq<char>,
    pub evm_node_url: Seq<char>,
    pub chain_id: u32,
}

impl View for ClientPair {
    type V = ClientPairView;

    open spec fn view(&self) -> ClientPairView {
        ClientPairView {
            ar_node_url: self.ar_node_url@,
            key_root_path: self.key_root_path@,
            temp_data_path: self.temp_data_path@,
            contract_addr: self.contract_addr@,
            evm_node_url: self.evm_node_url@,
            chain_id: self.chain_id,
        }
    }
}

impl ClientPair {
    /// A copy with the same value.
    pub fn duplicate(&self) -> (copy: ClientPair)
        ensures
            copy@ == self@,
    {
        ClientPair {
            ar_node_url: self.ar_node_url.clone(),
            key_root_path: self.key_root_path.clone(),
            temp_data_path: self.temp_data_path.clone(),
            contract_addr: self.contract_addr.clone(),
            evm_node_url: self.evm_node_url.clone(),
            chain_id: self.chain_id,
        }
    }
}

/// The client pair that belongs to `system`, with the paths of `config`.
pub open spec fn client_pair(
    system: SystemConfigView,
    config: RollupExecutorConfigView,
) -> ClientPairView {
    ClientPairView {
        ar_node_url: system.ar_node_url,
        key_root_path: config.key_root_path,
        temp_data_path: config.temp_data_path,
        contract_addr: system.contract_addr,
        evm_node_url: system.evm_node_url,
        chain_id: system.chain_id,
    }
}

/// What is waiting for a rollup, for observers.
#[derive(Debug, Clone, Copy, PartialEq, Eq, Structural)]
pub struct PendingRollup {
    pub start_block: u64,
    pub end_block: u64,
    pub mutations: u64,
    pub data_size: u64,
}

impl PendingRollup {
    /// Nothing is waiting.
    pub open spec fn none() -> PendingRollup {
        PendingRollup { start_block: 0, end_block: 0, mutations: 0, data_size: 0 }
    }
}

/// The mutations of one rollup with what the upload needs beside them.
#[derive(Debug, Clone, PartialEq, Eq)]
pub struct RollupBatch {
    /// The blob of the previous rollup, empty for the first.
    pub prev_blob_id: String,
    pub start_block: u64,
    pub end_block: u64,
    pub network_id: u64,
    pub mutations: Vec<StoredMutation>,
    pub clients: ClientPair,
}

/// The mathematical value of a [`RollupBatch`].
pub ghost struct RollupBatchView {
    pub prev_blob_id: Seq<char>,
    pub start_block: u64,
    pub end_block: u64,
    pub network_id: u64,
    pub mutations: Seq<MutationView>,
    pub clients: ClientPairView,
}

impl View for RollupBatch {
    type V = RollupBatchView;

    open spec fn view(&self) -> RollupBatchView {
        RollupBatchView {
            prev_blob_id: self.prev_blob_id@,
            start_block: self.start_block,
            end_block: self.end_block,
            network_id: self.network_id,
            mutations: mutation_views(self.mutations@),
            clients: self.clients@,
        }
    }
}

/// What a tick found to do.
#[derive(Debug, Clone, PartialEq, Eq)]
pub enum RollupPlan {
    /// No system configuration was persisted: there are no clients to work with.
    NotConfigured,
    /// No block was closed since the last rollup.
    NoNewBlock,
    /// The blocks since the last rollup hold no mutation.
    NoMutation,
    /// Serialise this batch and report its size in memory.
    Serialize(RollupBatch),
}

/// The mathematical value of a [`RollupPlan`].
pub ghost enum RollupPlanView {
    NotConfigured,
    NoNewBlock,
    NoMutation,
    Serialize(RollupBatchView),
}

impl View for RollupPlan {
    type V = RollupPlanView;

    open spec fn view(&self) -> RollupPlanView {
        match self {
            RollupPlan::NotConfigured => RollupPlanView::NotConfigured,
            RollupPlan::NoNewBlock => RollupPlanView::NoNewBlock,
            RollupPlan::NoMutation => RollupPlanView::NoMutation,
            RollupPlan::Serialize(batch) => RollupPlanView::Serialize(batch@),
        }
    }
}

/// What the blob store answered to an upload.
#[derive(Debug, Clone, PartialEq, Eq)]
pub struct UploadReceipt {
    pub blob_id: String,
    pub reward: u64,
    pub num_rows: u64,
    pub compressed_size: u64,
}

/// What the chain answered to the rollup step.
#[derive(Debug, Clone, PartialEq, Eq)]
pub struct ChainReceipt {
    pub evm_cost: u64,
    pub tx_hash: Vec<u8>,
}

/// The clock readings of one tick, in seconds.
pub ghost struct Timing {
    /// The wall time at which the records are written.
    pub time: u64,
    /// How long the rollup took.
    pub rollup_seconds: u64,
    /// How long the garbage collection took.
    pub gc_seconds: u64,
}

/// How long the garbage collection of a tick took: what the record of the
/// retirement says, and 0 where no range was retired.
pub open spec fn gc_seconds_of(res: Result<Option<GcRecord>, NodeError>) -> u64 {
    match res {
        Ok(Some(record)) => record.processed_time,
        _ => 0,
    }
}

/// The record of the rollup of `[start_block, end_block)` with these
/// measurements and receipts.
pub open spec fn rollup_record(
    start_block: u64,
    end_block: u64,
    memory_size: u64,
    blob_id: Seq<char>,
    reward: u64,
    num_rows: u64,
    compressed_size: u64,
    evm_cost: u64,
    tx_hash: Seq<u8>,
    timing: Timing,
) -> RollupRecordView {
    RollupRecordView {
        end_block,
        raw_data_size: memory_size,
        compress_data_size: compressed_size,
        processed_time: timing.rollup_seconds,
        arweave_tx: blob_id,
        time: timing.time,
        mutation_count: num_rows,
        cost: reward,
        start_block,
        evm_tx: hex_prefixed(tx_hash),
        evm_cost,
    }
}

impl StoreView {
    /// The block from which garbage collection looks ahead: where the range
    /// that was retired last starts, or 0 before the first retirement.
    pub open spec fn gc_cursor(self) -> u64 {
        if self.gcs.len() == 0 {
            0
        } else {
            self.gcs.last().start_block
        }
    }

    /// Whether a range is retired now: at least `offset` rollup rounds start
    /// strictly later than the cursor, and a rolled-up range is left to retire.
    pub open spec fn gc_due(self, offset: u64) -> bool {
        later_rounds(self.rollups, self.gc_cursor()) >= offset && self.gcs.len()
            < self.rollups.len()
    }

    /// The record of the retirement that is due: it covers the oldest
    /// rolled-up range that is not retired yet.
    pub open spec fn gc_record(self, timing: Timing) -> GcRecord {
        let r = self.rollups[self.gcs.len() as int];
        GcRecord {
            start_block: r.start_block,
            end_block: r.end_block,
            data_size: r.raw_data_size,
            time: timing.time,
            processed_time: timing.gc_seconds,
        }
    }

    /// The store after one round of garbage collection.
    pub open spec fn after_gc(self, offset: u64, timing: Timing) -> StoreView {
        if self.gc_due(offset) {
            let record = self.gc_record(timing);
            StoreView {
                mutations: self.mutations.filter(
                    outside_block_range(record.start_block, record.end_block),
                ),
                gcs: self.gcs.push(record),
                ..self
            }
        } else {
            self
        }
    }

    /// The store after `record` was appended to the rollup records.
    pub open spec fn with_rollup(self, record: RollupRecordView) -> StoreView {
        StoreView { rollups: self.rollups.push(record), ..self }
    }

    /// Every retired range has at least `offset` rollup rounds behind it: none
    /// lies within `offset` rounds of the most recent rollup.
    pub open spec fn gc_keeps_distance(self, offset: u64) -> bool {
        forall|j: int|
            0 <= j < self.gcs.len() ==> later_rounds(
                self.rollups,
                (#[trigger] self.gcs[j]).start_block,
            ) >= offset
    }
}

/// The mathematical value of a [`RollupExecutor`].
pub ghost struct ExecutorView {
    pub config: RollupExecutorConfigView,
    pub storage: StoreView,
    pub clients: Option<ClientPairView>,
    pub min_rollup_size: u64,
    pub pending: PendingRollup,
    pub network_id: u64,
    pub rollup_max_interval: u64,
    pub min_gc_round_offset: u64,
}

impl ExecutorView {
    /// The batcher as it starts, with the system configuration that was
    /// persisted, if any.
    pub open spec fn initial(
        config: RollupExecutorConfigView,
        storage: StoreView,
        system: Option<SystemConfigView>,
    ) -> ExecutorView {
        match system {
            Some(c) => ExecutorView {
                config,
                storage,
                clients: Some(client_pair(c, config)),
                min_rollup_size: c.min_rollup_size,
                pending: PendingRollup::none(),
                network_id: c.network_id,
                rollup_max_interval: c.rollup_max_interval,
                min_gc_round_offset: c.min_gc_offset,
            },
            None => ExecutorView {
                config,
                storage,
                clients: None,
                min_rollup_size: 0,
                pending: PendingRollup::none(),
                network_id: 0,
                rollup_max_interval: 0,
                min_gc_round_offset: 0,
            },
        }
    }

    /// The batcher after it was told of the persisted system configuration.
    pub open spec fn reconfigured(self, system: Option<SystemConfigView>) -> ExecutorView {
        match system {
            Some(c) => ExecutorView {
                clients: Some(client_pair(c, self.config)),
                min_rollup_size: c.min_rollup_size,
                network_id: c.network_id,
                rollup_max_interval: c.rollup_max_interval,
                min_gc_round_offset: c.min_gc_offset,
                ..self
            },
            None => self,
        }
    }

    /// Where the last rollup started, or 0.
    pub open spec fn last_start(self) -> u64 {
        if self.storage.rollups.len() == 0 {
            0
        } else {
            self.storage.rollups.last().start_block
        }
    }

    /// The blob of the last rollup, or the empty text.
    pub open spec fn last_blob(self) -> Seq<char> {
        if self.storage.rollups.len() == 0 {
            Seq::empty()
        } else {
            self.storage.rollups.last().arweave_tx
        }
    }

    /// The mutations that wait for a rollup: those of the closed blocks since
    /// the last rollup.
    pub open spec fn unrolled(self) -> Seq<MutationView> {
        self.storage.mutations.filter(
            in_block_range(last_rollup_end(self.storage.rollups), self.storage.block),
        )
    }

    /// What a tick finds to do.
    pub open spec fn plan(self) -> RollupPlanView {
        if self.clients is None {
            RollupPlanView::NotConfigured
        } else if self.storage.block <= last_rollup_end(self.storage.rollups) {
            RollupPlanView::NoNewBlock
        } else if self.unrolled().len() == 0 {
            RollupPlanView::NoMutation
        } else {
            RollupPlanView::Serialize(
                RollupBatchView {
                    prev_blob_id: self.last_blob(),
                    start_block: last_rollup_end(self.storage.rollups),
                    end_block: self.storage.block,
                    network_id: self.network_id,
                    mutations: self.unrolled(),
                    clients: self.clients->0,
                },
            )
        }
    }

    /// The batcher after a tick has planned: the pending counters show the
    /// range since the start of the last rollup and, where mutations wait, how
    /// many.
    pub open spec fn after_process(self) -> ExecutorView {
        match self.plan() {
            RollupPlanView::NotConfigured => self,
            RollupPlanView::NoNewBlock => self,
            RollupPlanView::NoMutation => ExecutorView {
                pending: PendingRollup {
                    start_block: self.last_start(),
                    end_block: self.storage.block,
                    ..self.pending
                },
                ..self
            },
            RollupPlanView::Serialize(batch) => ExecutorView {
                pending: PendingRollup {
                    start_block: self.last_start(),
                    end_block: self.storage.block,
                    mutations: batch.mutations.len() as u64,
                    ..self.pending
                },
                ..self
            },
        }
    }

    /// Whether a batch of `memory_size` bytes is rolled up now.
    pub open spec fn admits(self, memory_size: u64) -> bool {
        memory_size >= self.min_rollup_size
    }

    /// The batcher after a batch was measured: a batch under the threshold
    /// stays pending with its size, an admitted one leaves nothing pending.
    pub open spec fn after_admit(self, memory_size: u64) -> ExecutorView {
        if self.admits(memory_size) {
            ExecutorView { pending: PendingRollup::none(), ..self }
        } else {
            ExecutorView {
                pending: PendingRollup { data_size: memory_size, ..self.pending },
                ..self
            }
        }
    }

    /// The records of the retired ranges keep their distance from the most
    /// recent rollup under the batcher's own offset.
    pub open spec fn gc_keeps_distance(self) -> bool {
        self.storage.gc_keeps_distance(self.min_gc_round_offset)
    }
}

/// The rollup batcher.
pub struct RollupExecutor {
    config: RollupExecutorConfig,
    storage: MutationStore,
    clients: Option<ClientPair>,
    min_rollup_size: u64,
    pending: PendingRollup,
    network_id: u64,
    rollup_max_interval: u64,
    min_gc_round_offset: u64,
}

impl View for RollupExecutor {
    type V = ExecutorView;

    closed spec fn view(&self) -> ExecutorView {
        ExecutorView {
            config: self.config@,
            storage: self.storage@,
            clients: match self.clients {
                Some(c) => Some(c@),
                None => None,
            },
            min_rollup_size: self.min_rollup_size,
            pending: self.pending,
            network_id: self.network_id,
            rollup_max_interval: self.rollup_max_interval,
            min_gc_round_offset: self.min_gc_round_offset,
        }
    }
}

impl RollupExecutor {
    /// The invariant of the batcher: that of its store.
    pub open spec fn wf(&self) -> bool {
        self@.storage.wf()
    }

    /// A batcher over `storage`, set up from the system configuration that was
    /// persisted, if any. Without one it has no clients and `process` finds
    /// nothing to do.
    pub fn new(
        config: RollupExecutorConfig,
        storage: MutationStore,
        system: Option<SystemConfig>,
    ) -> (executor: RollupExecutor)
        requires
            storage.wf(),
        ensures
            executor.wf(),
            executor@ == ExecutorView::initial(config@, storage@, system_view(system)),
            storage@.gcs.len() == 0 ==> executor@.gc_keeps_distance(),
    {
        match system {
            Some(c) => {
                let clients = ClientPair {
                    ar_node_url: c.ar_node_url,
                    key_root_path: config.key_root_path.clone(),
                    temp_data_path: config.temp_data_path.clone(),
                    contract_addr: c.contract_addr,
                    evm_node_url: c.evm_node_url,
                    chain_id: c.chain_id,
                };
                RollupExecutor {
                    config,
                    storage,
                    clients: Some(clients),
                    min_rollup_size: c.min_rollup_size,
                    pending: PendingRollup {
                        start_block: 0,
                        end_block: 0,
                        mutations: 0,
                        data_size: 0,
                    },
                    network_id: c.network_id,
                    rollup_max_interval: c.rollup_max_interval,
                    min_gc_round_offset: c.min_gc_offset,
                }
            },
            None => RollupExecutor {
                config,
                storage,
                clients: None,
                min_rollup_size: 0,
                pending: PendingRollup { start_block: 0, end_block: 0, mutations: 0, data_size: 0 },
                network_id: 0,
                rollup_max_interval: 0,
                min_gc_round_offset: 0,
            },
        }
    }

    /// Takes over the system configuration that is persisted now. With one,
    /// the thresholds, the network and the client pair are replaced together;
    /// with none, nothing changes.
    pub fn update_config(&mut self, system: Option<SystemConfig>)
        requires
            old(self).wf(),
        ensures
            final(self).wf(),
            final(self)@ == old(self)@.reconfigured(system_view(system)),
            old(self)@.gc_keeps_distance() && (system is Some ==> system->0.min_gc_offset
                <= old(self)@.min_gc_round_offset) ==> final(self)@.gc_keeps_distance(),
    {
        proof {
            if old(self)@.gc_keeps_distance() && (system is Some ==> system->0.min_gc_offset
                <= old(self)@.min_gc_round_offset) {
                lemma_reconfigured_keeps_distance(old(self)@, system_view(system));
            }
        }
        match system {
            Some(c) => {
                let clients = ClientPair {
                    ar_node_url: c.ar_node_url,
                    key_root_path: self.config.key_root_path.clone(),
                    temp_data_path: self.config.temp_data_path.clone(),
                    contract_addr: c.contract_addr,
                    evm_node_url: c.evm_node_url,
                    chain_id: c.chain_id,
                };
                self.min_rollup_size = c.min_rollup_size;
                self.rollup_max_interval = c.rollup_max_interval;
                self.min_gc_round_offset = c.min_gc_offset;
                self.network_id = c.network_id;
                self.clients = Some(clients);
            },
            None => {},
        }
    }

    /// The pending counters in the shape of a rollup record, stamped with the
    /// wall time `time`.
    pub fn get_pending_rollup(&self, time: u64) -> (record: RollupRecord)
        ensures
            record@ == (RollupRecordView {
                end_block: self@.pending.end_block,
                raw_data_size: self@.pending.data_size,
                compress_data_size: 0,
                processed_time: 0,
                arweave_tx: Seq::empty(),
                time,
                mutation_count: self@.pending.mutations,
                cost: 0,
                start_block: self@.pending.start_block,
                evm_tx: Seq::empty(),
                evm_cost: 0,
            }),
    {
        RollupRecord {
            end_block: self.pending.end_block,
            start_block: self.pending.start_block,
            raw_data_size: self.pending.data_size,
            compress_data_size: 0,
            processed_time: 0,
            arweave_tx: String::new(),
            time,
            mutation_count: self.pending.mutations,
            cost: 0,
            evm_tx: String::new(),
            evm_cost: 0,
        }
    }

    /// The pending counters.
    pub fn pending(&self) -> (pending: PendingRollup)
        ensures
            pending == self@.pending,
    {
        self.pending
    }

    /// Whether a system configuration was taken over: whether the batcher
    /// has clients to work with.
    pub fn is_configured(&self) -> (configured: bool)
        ensures
            configured == (self@.clients is Some),
    {
        self.clients.is_some()
    }

    /// The client pair that the batcher works with, if it has one.
    pub fn clients(&self) -> (pair: Option<ClientPair>)
        ensures
            pair is Some <==> self@.clients is Some,
            pair is Some ==> pair->0@ == self@.clients->0,
    {
        match &self.clients {
            Some(c) => Some(c.duplicate()),
            None => None,
        }
    }

    /// The client pair that belongs to `system` with the paths of the
    /// batcher: what `update_config` would put in place of the present pair.
    pub fn clients_for(&self, system: &SystemConfig) -> (pair: ClientPair)
        ensures
            pair@ == client_pair(system@, self@.config),
    {
        ClientPair {
            ar_node_url: system.ar_node_url.clone(),
            key_root_path: self.config.key_root_path.clone(),
            temp_data_path: self.config.temp_data_path.clone(),
            contract_addr: system.contract_addr.clone(),
            evm_node_url: system.evm_node_url.clone(),
            chain_id: system.chain_id,
        }
    }

    /// The size in memory from which a batch is rolled up.
    pub fn min_rollup_size(&self) -> (size: u64)
        ensures
            size == self@.min_rollup_size,
    {
        self.min_rollup_size
    }

    /// The longest time between two rollups that the scheduler allows.
    pub fn rollup_max_interval(&self) -> (interval: u64)
        ensures
            interval == self@.rollup_max_interval,
    {
        self.rollup_max_interval
    }

    /// How many rollup rounds a range must have behind it to be retired.
    pub fn min_gc_round_offset(&self) -> (offset: u64)
        ensures
            offset == self@.min_gc_round_offset,
    {
        self.min_gc_round_offset
    }

    /// The network that the batcher works for.
    pub fn network_id(&self) -> (id: u64)
        ensures
            id == self@.network_id,
    {
        self.network_id
    }

    /// The store of the batcher.
    pub fn storage(&self) -> (storage: &MutationStore)
        ensures
            storage@ == self@.storage,
    {
        &self.storage
    }

    /// Appends a mutation to the open block of the store, as
    /// [`MutationStore::add_mutation`] does.
    pub fn add_mutation(&mut self, payload: Vec<u8>, signature: String) -> (res: Result<
        (u64, u32),
        NodeError,
    >)
        requires
            old(self).wf(),
        ensures
            final(self).wf(),
            final(self)@ == (ExecutorView { storage: final(self)@.storage, ..old(self)@ }),
            old(self)@.gc_keeps_distance() ==> final(self)@.gc_keeps_distance(),
            old(self)@.storage.order == u32::MAX ==> res == Err::<(u64, u32), NodeError>(
                NodeError::StorageError,
            ) && final(self)@ == old(self)@,
            old(self)@.storage.order < u32::MAX ==> res == Ok::<(u64, u32), NodeError>(
                (old(self)@.storage.block, old(self)@.storage.order),
            ) && final(self)@.storage == (StoreView {
                mutations: old(self)@.storage.mutations.push(
                    MutationView {
                        block: old(self)@.storage.block,
                        order: old(self)@.storage.order,
                        payload: payload@,
                        signature: signature@,
                    },
                ),
                order: (old(self)@.storage.order + 1) as u32,
                ..old(self)@.storage
            }),
    {
        self.storage.add_mutation(payload, signature)
    }

    /// Closes the open block of the store, as
    /// [`MutationStore::increase_block`] does.
    pub fn increase_block(&mut self) -> (res: Result<u64, NodeError>)
        requires
            old(self).wf(),
        ensures
            final(self).wf(),
            final(self)@ == (ExecutorView { storage: final(self)@.storage, ..old(self)@ }),
            old(self)@.gc_keeps_distance() ==> final(self)@.gc_keeps_distance(),
            old(self)@.storage.block == u64::MAX ==> res == Err::<u64, NodeError>(
                NodeError::StorageError,
            ) && final(self)@ == old(self)@,
            old(self)@.storage.block < u64::MAX ==> res == Ok::<u64, NodeError>(
                (old(self)@.storage.block + 1) as u64,
            ) && final(self)@.storage == (StoreView {
                block: (old(self)@.storage.block + 1) as u64,
                order: 0,
                ..old(self)@.storage
            }),
    {
        self.storage.increase_block()
    }

    /// Plans a tick. Without clients, without a block closed since the last
    /// rollup, or without a mutation in those blocks there is nothing to do.
    /// Otherwise the plan holds the mutations of the closed blocks since the
    /// last rollup, which are to be serialised and measured.
    pub fn process(&mut self) -> (plan: RollupPlan)
        requires
            old(self).wf(),
        ensures
            final(self).wf(),
            plan@ == old(self)@.plan(),
            final(self)@ == old(self)@.after_process(),
            old(self)@.gc_keeps_distance() ==> final(self)@.gc_keeps_distance(),
    {
        let clients = match &self.clients {
            None => {
                return RollupPlan::NotConfigured;
            },
            Some(c) => c.duplicate(),
        };
        let network_id: u64 = self.network_id;
        let (last_start, last_end, blob): (u64, u64, String) =
            match self.storage.get_last_rollup_record() {
            Some(r) => (r.start_block, r.end_block, r.arweave_tx),
            None => (0, 0, String::new()),
        };
        let current: u64 = self.storage.get_current_block();
        if current <= last_end {
            return RollupPlan::NoNewBlock;
        }
        self.pending.start_block = last_start;
        self.pending.end_block = current;
        let mutations = self.storage.get_range_mutations(last_end, current);
        if mutations.len() == 0 {
            return RollupPlan::NoMutation;
        }
        self.pending.mutations = mutations.len() as u64;
        RollupPlan::Serialize(
            RollupBatch {
                prev_blob_id: blob,
                start_block: last_end,
                end_block: current,
                network_id,
                mutations,
                clients,
            },
        )
    }

    /// Holds the size in memory of the serialised batch against the minimum
    /// rollup size. A batch under it is deferred: it stays pending with its
    /// size. Otherwise the rollup goes ahead and nothing is pending.
    pub fn admit_batch(&mut self, memory_size: u64) -> (admitted: bool)
        requires
            old(self).wf(),
        ensures
            final(self).wf(),
            admitted == old(self)@.admits(memory_size),
            final(self)@ == old(self)@.after_admit(memory_size),
            old(self)@.gc_keeps_distance() ==> final(self)@.gc_keeps_distance(),
    {
        self.pending.data_size = memory_size;
        if memory_size < self.min_rollup_size {
            false
        } else {
            self.pending =
            PendingRollup { start_block: 0, end_block: 0, mutations: 0, data_size: 0 };
            true
        }
    }

    /// Retires the oldest rolled-up range that is not retired yet, provided
    /// that at least the configured number of rollup rounds start strictly
    /// later than the range retired last (than block 0 before the first
    /// retirement). Returns the record of the retirement, if one was made: it
    /// is stamped with the wall time `time` and says how long the deletion
    /// took by the clock of the machine. Where no range is retired nothing
    /// changes.
    fn gc_mutation(&mut self, time: u64) -> (res: Result<Option<GcRecord>, NodeError>)
        requires
            old(self).wf(),
        ensures
            final(self).wf(),
            ({
                let timing = Timing { time, rollup_seconds: 0, gc_seconds: gc_seconds_of(res) };
                let offset = old(self)@.min_gc_round_offset;
                &&& final(self)@ == (ExecutorView {
                    storage: old(self)@.storage.after_gc(offset, timing),
                    ..old(self)@
                })
                &&& res == Ok::<Option<GcRecord>, NodeError>(
                    if old(self)@.storage.gc_due(offset) {
                        Some(old(self)@.storage.gc_record(timing))
                    } else {
                        None
                    },
                )
            }),
            later_rounds(old(self)@.storage.rollups, old(self)@.storage.gc_cursor())
                < old(self)@.min_gc_round_offset ==> res == Ok::<Option<GcRecord>, NodeError>(
                None,
            ) && final(self)@ == old(self)@,
    {
        let ghost before = self@.storage;
        let started = stopwatch();
        let (last_start, first): (u64, bool) = match self.storage.get_last_gc_record() {
            Some(r) => (r.start_block, false),
            None => (0, true),
        };
        if !self.storage.has_enough_round_left(last_start, self.min_gc_round_offset) {
            return Ok(None);
        }
        let next = if first {
            self.storage.get_rollup_record(last_start)
        } else {
            self.storage.get_next_rollup_record(last_start)
        };
        proof {
            lemma_gc_target(before, next);
        }
        match next {
            Some(r) => {
                self.storage.gc_range_mutation(r.start_block, r.end_block);
                let record = GcRecord {
                    start_block: r.start_block,
                    end_block: r.end_block,
                    data_size: r.raw_data_size,
                    time,
                    processed_time: whole_seconds(&elapsed_since(&started)),
                };
                proof {
                    lemma_swept_store_accepts(before, record);
                }
                match self.storage.add_gc_record(record) {
                    Ok(()) => Ok(Some(record)),
                    Err(e) => Err(e),
                }
            },
            None => Ok(None),
        }
    }

    /// Records the rollup of the batch that `process` planned, once the blob
    /// store and the chain have taken it, and then runs one round of garbage
    /// collection. Both records are stamped with the wall time `time`; the
    /// rollup took `rollup_seconds`, and the record of a retirement says how
    /// long the deletion took by the clock of the machine. Fails with
    /// `RollupError`, changing nothing, when the range of the batch does not
    /// follow the rollup records any more.
    pub fn commit_rollup(
        &mut self,
        batch: &RollupBatch,
        memory_size: u64,
        upload: UploadReceipt,
        chain: ChainReceipt,
        time: u64,
        rollup_seconds: u64,
    ) -> (res: Result<Option<GcRecord>, NodeError>)
        requires
            old(self).wf(),
        ensures
            final(self).wf(),
            ({
                let timing = Timing { time, rollup_seconds, gc_seconds: gc_seconds_of(res) };
                let record = rollup_record(
                    batch.start_block,
                    batch.end_block,
                    memory_size,
                    upload.blob_id@,
                    upload.reward,
                    upload.num_rows,
                    upload.compressed_size,
                    chain.evm_cost,
                    chain.tx_hash@,
                    timing,
                );
                let offset = old(self)@.min_gc_round_offset;
                let rolled = old(self)@.storage.with_rollup(record);
                &&& !old(self)@.storage.accepts_rollup(record) ==> res == Err::<
                    Option<GcRecord>,
                    NodeError,
                >(NodeError::RollupError) && final(self)@ == old(self)@
                &&& old(self)@.storage.accepts_rollup(record) ==> final(self)@ == (ExecutorView {
                    storage: rolled.after_gc(offset, timing),
                    ..old(self)@
                }) && res == Ok::<Option<GcRecord>, NodeError>(
                    if rolled.gc_due(offset) {
                        Some(rolled.gc_record(timing))
                    } else {
                        None
                    },
                )
            }),
            ({
                let record = rollup_record(
                    batch.start_block,
                    batch.end_block,
                    memory_size,
                    upload.blob_id@,
                    upload.reward,
                    upload.num_rows,
                    upload.compressed_size,
                    chain.evm_cost,
                    chain.tx_hash@,
                    Timing { time, rollup_seconds, gc_seconds: 0 },
                );
                let rolled = old(self)@.storage.with_rollup(record);
                old(self)@.storage.accepts_rollup(record) && later_rounds(
                    rolled.rollups,
                    rolled.gc_cursor(),
                ) < old(self)@.min_gc_round_offset ==> res == Ok::<Option<GcRecord>, NodeError>(
                    None,
                ) && final(self)@ == (ExecutorView { storage: rolled, ..old(self)@ })
            }),
            old(self)@.gc_keeps_distance() ==> final(self)@.gc_keeps_distance(),
    {
        let evm_tx = to_prefixed_hex(&chain.tx_hash);
        let record = RollupRecord {
            end_block: batch.end_block,
            raw_data_size: memory_size,
            compress_data_size: upload.compressed_size,
            processed_time: rollup_seconds,
            arweave_tx: upload.blob_id,
            time,
            mutation_count: upload.num_rows,
            cost: upload.reward,
            start_block: batch.start_block,
            evm_tx,
            evm_cost: chain.evm_cost,
        };
        let ghost before = self@.storage;
        let ghost value = record@;
        match self.storage.add_rollup_record(record) {
            Ok(()) => {},
            Err(_) => {
                return Err(NodeError::RollupError);
            },
        }
        let res = self.gc_mutation(time);
        proof {
            lemma_gc_round_keeps_distance(
                before,
                value,
                self.min_gc_round_offset,
                Timing { time, rollup_seconds, gc_seconds: gc_seconds_of(res) },
            );
        }
        res
    }
}

/// What the store hands out as the next record to retire is the oldest
/// rolled-up range that is not retired yet, and nothing where all are retired.
proof fn lemma_gc_target(store: StoreView, next: Option<RollupRecord>)
    requires
        store.wf(),
        store.gcs.len() == 0 ==> {
            &&& next is None <==> forall|i: int|
                0 <= i < store.rollups.len() ==> (#[trigger] store.rollups[i]).start_block != 0
            &&& next is Some ==> exists|i: int|
                0 <= i < store.rollups.len() && (#[trigger] store.rollups[i]).start_block == 0
                    && next->0@ == store.rollups[i]
        },
        store.gcs.len() > 0 ==> {
            &&& next is None <==> forall|i: int|
                0 <= i < store.rollups.len() ==> (#[trigger] store.rollups[i]).start_block
                    <= store.gc_cursor()
            &&& next is Some ==> exists|i: int|
                is_first_after(store.rollups, store.gc_cursor(), i) && next->0@
                    == store.rollups[i]
        },
    ensures
        next is Some <==> store.gcs.len() < store.rollups.len(),
        next is Some ==> next->0@ == store.rollups[store.gcs.len() as int],
{
    let n = store.rollups.len() as int;
    let g = store.gcs.len() as int;
    if g == 0 {
        if n > 0 {
            assert(store.rollups[0].start_block == 0);
            let i = choose|i: int|
                0 <= i < store.rollups.len() && (#[trigger] store.rollups[i]).start_block == 0
                    && next->0@ == store.rollups[i];
            if i > 0 {
                lemma_rollups_increasing(store.rollups, 0, i);
            }
        }
    } else {
        let cursor = store.gc_cursor();
        assert(store.gcs[g - 1].start_block == store.rollups[g - 1].start_block);
        if g < n {
            lemma_rollups_increasing(store.rollups, g - 1, g);
            assert(store.rollups[g].start_block > cursor);
            let i = choose|i: int|
                is_first_after(store.rollups, cursor, i) && next->0@ == store.rollups[i];
            if i < g {
                if i < g - 1 {
                    lemma_rollups_increasing(store.rollups, i, g - 1);
                }
            } else if i > g {
                assert(store.rollups[g].start_block <= cursor);
            }
        } else {
            assert forall|i: int| 0 <= i < store.rollups.len() implies (
            #[trigger] store.rollups[i]).start_block <= cursor by {
                if i < g - 1 {
                    lemma_rollups_increasing(store.rollups, i, g - 1);
                }
            }
        }
    }
}

/// Once the mutations of the oldest range that is not retired yet are deleted,
/// the store takes the record of its retirement.
proof fn lemma_swept_store_accepts(store: StoreView, record: GcRecord)
    requires
        store.wf(),
        store.gcs.len() < store.rollups.len(),
        record.start_block == store.rollups[store.gcs.len() as int].start_block,
        record.end_block == store.rollups[store.gcs.len() as int].end_block,
    ensures
        (StoreView {
            mutations: store.mutations.filter(
                outside_block_range(record.start_block, record.end_block),
            ),
            ..store
        }).accepts_gc(record),
{
    let pred = outside_block_range(record.start_block, record.end_block);
    let kept = store.mutations.filter(pred);
    let g = store.gcs.len() as int;
    assert(gc_end(store.gcs) == record.start_block) by {
        if g > 0 {
            assert(store.gcs[g - 1].end_block == store.rollups[g - 1].end_block);
            assert(store.rollups[g].start_block == store.rollups[g - 1].end_block);
        } else {
            assert(store.rollups[0].start_block == 0);
        }
    }
    assert forall|i: int| 0 <= i < kept.len() implies record.end_block <= (
    #[trigger] kept[i]).block by {
        store.mutations.lemma_filter_pred(pred, i);
        assert(kept.contains(kept[i]));
        store.mutations.lemma_filter_contains_rev(pred, kept[i]);
        let j = choose|j: int| 0 <= j < store.mutations.len() && store.mutations[j] == kept[i];
        assert(gc_end(store.gcs) <= store.mutations[j].block);
    }
}

/// Garbage collection never comes within `offset` rounds of the most recent
/// rollup: where every retired range has at least `offset` rollup rounds
/// behind it, that is still so after a rollup was recorded and one round of
/// garbage collection has run under the same offset.
pub proof fn lemma_gc_round_keeps_distance(
    store: StoreView,
    record: RollupRecordView,
    offset: u64,
    timing: Timing,
)
    requires
        store.wf(),
        store.accepts_rollup(record),
    ensures
        store.gc_keeps_distance(offset) ==> store.with_rollup(record).after_gc(
            offset,
            timing,
        ).gc_keeps_distance(offset),
{
    let rolled = store.with_rollup(record);
    let after = rolled.after_gc(offset, timing);
    let n = store.rollups.len() as int;
    let g = store.gcs.len() as int;
    if store.gc_keeps_distance(offset) {
        assert(crate::mutation_store::rollups_contiguous(rolled.rollups)) by {
            assert forall|i: int| 0 <= i < rolled.rollups.len() implies (
            #[trigger] rolled.rollups[i]).start_block < rolled.rollups[i].end_block by {
                if i < n {
                    assert(rolled.rollups[i] == store.rollups[i]);
                }
            }
            assert forall|i: int, j: int|
                0 <= i && j == i + 1 && j < rolled.rollups.len() implies (
            #[trigger] rolled.rollups[j]).start_block == (#[trigger] rolled.rollups[i]).end_block by {
                assert(rolled.rollups[i] == store.rollups[i]);
                if j < n {
                    assert(rolled.rollups[j] == store.rollups[j]);
                }
            }
            if n > 0 {
                assert(rolled.rollups[0] == store.rollups[0]);
            }
        }
        assert forall|j: int| 0 <= j < after.gcs.len() implies later_rounds(
            after.rollups,
            (#[trigger] after.gcs[j]).start_block,
        ) >= offset by {
            assert(after.rollups == rolled.rollups);
            if j < g {
                assert(after.gcs[j] == store.gcs[j]);
                assert(store.gcs[j].start_block == store.rollups[j].start_block);
                assert(rolled.rollups[j] == store.rollups[j]);
                lemma_later_rounds_at(store.rollups, j);
                lemma_later_rounds_at(rolled.rollups, j);
            } else {
                assert(rolled.gc_due(offset));
                assert(after.gcs[j] == rolled.gc_record(timing));
                lemma_later_rounds_at(rolled.rollups, g);
                if g > 0 {
                    assert(store.gcs[g - 1].start_block == store.rollups[g - 1].start_block);
                    lemma_later_rounds_at(store.rollups, g - 1);
                } else {
                    assert(rolled.rollups[0].start_block == 0);
                }
            }
        }
    }
}

/// While fewer than `offset` rollup rounds start strictly later than the
/// cursor, garbage collection does nothing: no mutation is deleted and no
/// record is written.
pub proof fn lemma_gc_waits_for_rounds(store: StoreView, offset: u64, timing: Timing)
    requires
        later_rounds(store.rollups, store.gc_cursor()) < offset,
    ensures
        !store.gc_due(offset),
        store.after_gc(offset, timing) == store,
{
}

/// A new configuration keeps the distance of the retired ranges from the most
/// recent rollup unless it asks for a larger one.
pub proof fn lemma_reconfigured_keeps_distance(
    executor: ExecutorView,
    system: Option<SystemConfigView>,
)
    requires
        executor.gc_keeps_distance(),
        system is Some ==> system->0.min_gc_offset <= executor.min_gc_round_offset,
    ensures
        executor.reconfigured(system).gc_keeps_distance(),
{
    let after = executor.reconfigured(system);
    assert forall|j: int| 0 <= j < after.storage.gcs.len() implies later_rounds(
        after.storage.rollups,
        (#[trigger] after.storage.gcs[j]).start_block,
    ) >= after.min_gc_round_offset by {
        assert(after.storage.gcs[j] == executor.storage.gcs[j]);
    }
}

/// A batcher that starts on a store without garbage-collection records keeps
/// the distance under any offset.
pub proof fn lemma_initial_keeps_distance(
    config: RollupExecutorConfigView,
    storage: StoreView,
    system: Option<SystemConfigView>,
)
    requires
        storage.gcs.len() == 0,
    ensures
        ExecutorView::initial(config, storage, system).gc_keeps_distance(),
{
}

/// A tick hands out the client pair of the configuration that was taken over
/// last, both halves of it: after `update_config` with a configuration, a
/// rollup that `process` plans works with the blob store and the chain of that
/// configuration and with no part of an older one.
pub proof fn lemma_process_uses_latest_config(executor: ExecutorView, system: SystemConfigView)
    ensures
        executor.reconfigured(Some(system)).clients == Some(client_pair(system, executor.config)),
        executor.reconfigured(Some(system)).plan() matches RollupPlanView::Serialize(batch)
            ==> batch.clients == client_pair(system, executor.config) && batch.network_id
            == system.network_id,
        executor.reconfigured(Some(system)).plan() !is NotConfigured,
        executor.reconfigured(Some(system)).after_process().clients == Some(
            client_pair(system, executor.config),
        ),
{
}

} // verus!
